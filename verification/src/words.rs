//! Splitting text into words and comparing word lists.
use vstd::prelude::*;

use crate::text::{
    char_is_alphabetic, char_is_alphanumeric, char_is_whitespace, chars_of, is_alphabetic,
    is_alphanumeric, white_space, lower_text, nfkd, string_from_chars, to_lowercase, to_nfkd,
};

verus! {

/// The views of a list of character vectors.
pub open spec fn views(v: Seq<Vec<char>>) -> Seq<Seq<char>> {
    Seq::new(v.len(), |i: int| v[i]@)
}

/// The class of characters at which text is split into pieces.
#[derive(Clone, Copy, PartialEq, Eq, Structural)]
pub enum Sep {
    /// Every character that is not alphabetic separates.
    NonAlphabetic,
    /// Every character that is not alphanumeric separates.
    NonAlphanumeric,
    /// Every whitespace character separates.
    Whitespace,
    /// The given character separates.
    Char(char),
}

/// Whether `c` separates pieces under `k`.
pub open spec fn is_sep(k: Sep, c: char) -> bool {
    match k {
        Sep::NonAlphabetic => !is_alphabetic(c),
        Sep::NonAlphanumeric => !is_alphanumeric(c),
        Sep::Whitespace => white_space(c),
        Sep::Char(d) => c == d,
    }
}

/// Whether `c` separates pieces under `k`.
pub fn is_sep_exec(k: Sep, c: char) -> (r: bool)
    ensures
        r == is_sep(k, c),
{
    match k {
        Sep::NonAlphabetic => !char_is_alphabetic(c),
        Sep::NonAlphanumeric => !char_is_alphanumeric(c),
        Sep::Whitespace => char_is_whitespace(c),
        Sep::Char(d) => c == d,
    }
}

/// The pieces that `str::split` with a character predicate yields: every
/// separator ends a piece, so `n` separators give `n + 1` pieces, empty
/// pieces included.
pub open spec fn split_pieces(s: Seq<char>, k: Sep) -> Seq<Seq<char>>
    decreases s.len(),
{
    if s.len() == 0 {
        seq![Seq::empty()]
    } else {
        let p = split_pieces(s.drop_last(), k);
        let c = s.last();
        if is_sep(k, c) {
            p.push(Seq::empty())
        } else {
            p.update(p.len() - 1, p.last().push(c))
        }
    }
}

/// There is always at least one piece.
pub proof fn lemma_split_pieces_nonempty(s: Seq<char>, k: Sep)
    ensures
        split_pieces(s, k).len() >= 1,
    decreases s.len(),
{
    if s.len() > 0 {
        lemma_split_pieces_nonempty(s.drop_last(), k);
    }
}

/// The pieces of `s` under separator class `k`, as `str::split` yields them.
pub fn split_by(s: &Vec<char>, k: Sep) -> (r: Vec<Vec<char>>)
    ensures
        views(r@) == split_pieces(s@, k),
{
    let mut pieces: Vec<Vec<char>> = Vec::new();
    let mut cur: Vec<char> = Vec::new();
    let mut i: usize = 0;
    proof {
        assert(s@.subrange(0, 0) =~= Seq::<char>::empty());
        assert(views(pieces@).push(cur@) =~= split_pieces(Seq::<char>::empty(), k));
    }
    while i < s.len()
        invariant
            i <= s@.len(),
            views(pieces@).push(cur@) == split_pieces(s@.subrange(0, i as int), k),
        decreases s@.len() - i,
    {
        let c = s[i];
        let ghost old_pieces = views(pieces@);
        let ghost old_cur = cur@;
        proof {
            let pre = s@.subrange(0, i + 1);
            assert(pre.drop_last() =~= s@.subrange(0, i as int));
            assert(pre.last() == c);
            lemma_split_pieces_nonempty(s@.subrange(0, i as int), k);
        }
        if is_sep_exec(k, c) {
            let done = cur;
            cur = Vec::new();
            pieces.push(done);
            assert(views(pieces@) =~= old_pieces.push(old_cur));
            assert(views(pieces@).push(cur@) =~= old_pieces.push(old_cur).push(
                Seq::empty(),
            ));
        } else {
            cur.push(c);
            assert(views(pieces@) =~= old_pieces);
            assert(views(pieces@).push(cur@) =~= old_pieces.push(old_cur).update(
                old_pieces.len() as int,
                old_cur.push(c),
            ));
        }
        i = i + 1;
    }
    let ghost before = views(pieces@);
    pieces.push(cur);
    assert(views(pieces@) =~= before.push(cur@));
    assert(s@.subrange(0, s@.len() as int) =~= s@);
    pieces
}

/// The alphanumeric characters of `s`, in order.
pub open spec fn keep_alnum(s: Seq<char>) -> Seq<char>
    decreases s.len(),
{
    if s.len() == 0 {
        s
    } else if is_alphanumeric(s.last()) {
        keep_alnum(s.drop_last()).push(s.last())
    } else {
        keep_alnum(s.drop_last())
    }
}

/// The alphabetic characters of `s`, in order.
pub open spec fn keep_alpha(s: Seq<char>) -> Seq<char>
    decreases s.len(),
{
    if s.len() == 0 {
        s
    } else if is_alphabetic(s.last()) {
        keep_alpha(s.drop_last()).push(s.last())
    } else {
        keep_alpha(s.drop_last())
    }
}

/// The characters of `s` of class alphanumeric (`alnum`) or alphabetic.
pub fn keep_class(s: &Vec<char>, alnum: bool) -> (r: Vec<char>)
    ensures
        alnum ==> r@ == keep_alnum(s@),
        !alnum ==> r@ == keep_alpha(s@),
{
    let mut r: Vec<char> = Vec::new();
    let mut i: usize = 0;
    while i < s.len()
        invariant
            i <= s@.len(),
            alnum ==> r@ == keep_alnum(s@.subrange(0, i as int)),
            !alnum ==> r@ == keep_alpha(s@.subrange(0, i as int)),
        decreases s@.len() - i,
    {
        let c = s[i];
        let keep = if alnum {
            char_is_alphanumeric(c)
        } else {
            char_is_alphabetic(c)
        };
        if keep {
            r.push(c);
        }
        proof {
            let pre = s@.subrange(0, i + 1);
            assert(pre.drop_last() =~= s@.subrange(0, i as int));
            assert(pre.last() == c);
        }
        i = i + 1;
    }
    assert(s@.subrange(0, s@.len() as int) =~= s@);
    r
}

/// A word normalized for matching: decomposed (NFKD), reduced to its
/// alphanumeric characters and lowercased, so accents do not matter.
pub open spec fn normalize_token_spec(w: Seq<char>) -> Seq<char> {
    lower_text(keep_alnum(nfkd(w)))
}

/// Normalizes one word for matching (see `normalize_token_spec`).
pub fn normalize_token(w: &Vec<char>) -> (r: Vec<char>)
    ensures
        r@ == normalize_token_spec(w@),
{
    let ws = string_from_chars(w.as_slice());
    let decomposed = to_nfkd(ws.as_str());
    let dv = chars_of(decomposed.as_str());
    let kept = keep_class(&dv, true);
    let ks = string_from_chars(kept.as_slice());
    let lowered = to_lowercase(ks.as_str());
    chars_of(lowered.as_str())
}

/// The first occurrence of every element of `s`, in order.
pub open spec fn dedup_seq(s: Seq<Seq<char>>) -> Seq<Seq<char>>
    decreases s.len(),
{
    if s.len() == 0 {
        s
    } else {
        let d = dedup_seq(s.drop_last());
        if d.contains(s.last()) {
            d
        } else {
            d.push(s.last())
        }
    }
}

/// How many elements of `a` occur in `b`.
pub open spec fn count_in(a: Seq<Seq<char>>, b: Seq<Seq<char>>) -> nat
    decreases a.len(),
{
    if a.len() == 0 {
        0
    } else {
        count_in(a.drop_last(), b) + if b.contains(a.last()) {
            1nat
        } else {
            0nat
        }
    }
}

/// At most every element of `a` occurs in `b`.
pub proof fn lemma_count_in_le(a: Seq<Seq<char>>, b: Seq<Seq<char>>)
    ensures
        count_in(a, b) <= a.len(),
    decreases a.len(),
{
    if a.len() > 0 {
        lemma_count_in_le(a.drop_last(), b);
    }
}

/// Whether every element of `a` occurs in `b`.
pub open spec fn all_in(a: Seq<Seq<char>>, b: Seq<Seq<char>>) -> bool {
    forall|i: int| 0 <= i < a.len() ==> b.contains(#[trigger] a[i])
}

/// Whether `w` is an element of `list`, comparing character by character.
pub fn contains_word(list: &Vec<Vec<char>>, w: &Vec<char>) -> (r: bool)
    ensures
        r == views(list@).contains(w@),
{
    let mut i: usize = 0;
    while i < list.len()
        invariant
            i <= list@.len(),
            forall|j: int| 0 <= j < i ==> views(list@)[j] != w@,
        decreases list@.len() - i,
    {
        if crate::text::seq_eq(&list[i], w) {
            assert(views(list@)[i as int] == w@);
            return true;
        }
        i = i + 1;
    }
    proof {
        if views(list@).contains(w@) {
            let j = choose|j: int| 0 <= j < views(list@).len() && views(list@)[j] == w@;
            assert(views(list@)[j] == w@);
        }
    }
    false
}

/// The first occurrence of every word of `s`, in order.
pub fn dedup_words(s: &Vec<Vec<char>>) -> (r: Vec<Vec<char>>)
    ensures
        views(r@) == dedup_seq(views(s@)),
{
    let mut r: Vec<Vec<char>> = Vec::new();
    let mut i: usize = 0;
    while i < s.len()
        invariant
            i <= s@.len(),
            views(r@) == dedup_seq(views(s@).subrange(0, i as int)),
        decreases s@.len() - i,
    {
        let ghost before = views(r@);
        proof {
            let pre = views(s@).subrange(0, i + 1);
            assert(pre.drop_last() =~= views(s@).subrange(0, i as int));
            assert(pre.last() == s@[i as int]@);
        }
        if !contains_word(&r, &s[i]) {
            let w = s[i].clone();
            r.push(w);
            assert(views(r@) =~= before.push(s@[i as int]@));
        }
        i = i + 1;
    }
    assert(views(s@).subrange(0, s@.len() as int) =~= views(s@));
    r
}

/// How many words of `a` occur in `b`.
pub fn count_words_in(a: &Vec<Vec<char>>, b: &Vec<Vec<char>>) -> (r: usize)
    ensures
        r == count_in(views(a@), views(b@)),
{
    let mut n: usize = 0;
    let mut i: usize = 0;
    while i < a.len()
        invariant
            i <= a@.len(),
            n <= i,
            n == count_in(views(a@).subrange(0, i as int), views(b@)),
        decreases a@.len() - i,
    {
        proof {
            let pre = views(a@).subrange(0, i + 1);
            assert(pre.drop_last() =~= views(a@).subrange(0, i as int));
            assert(pre.last() == a@[i as int]@);
        }
        if contains_word(b, &a[i]) {
            n = n + 1;
        }
        i = i + 1;
    }
    assert(views(a@).subrange(0, a@.len() as int) =~= views(a@));
    n
}

/// Whether every word of `a` occurs in `b`.
pub fn all_words_in(a: &Vec<Vec<char>>, b: &Vec<Vec<char>>) -> (r: bool)
    ensures
        r == all_in(views(a@), views(b@)),
{
    let mut i: usize = 0;
    while i < a.len()
        invariant
            i <= a@.len(),
            forall|j: int| 0 <= j < i ==> views(b@).contains(#[trigger] views(a@)[j]),
        decreases a@.len() - i,
    {
        if !contains_word(b, &a[i]) {
            assert(!views(b@).contains(views(a@)[i as int]));
            return false;
        }
        i = i + 1;
    }
    true
}

/// Converts a list of character vectors into strings.
pub fn strings_from(v: &Vec<Vec<char>>) -> (r: Vec<String>)
    ensures
        r.deep_view() == views(v@),
{
    let mut r: Vec<String> = Vec::new();
    let mut i: usize = 0;
    while i < v.len()
        invariant
            i <= v@.len(),
            r.deep_view() == views(v@).subrange(0, i as int),
        decreases v@.len() - i,
    {
        let s = string_from_chars(v[i].as_slice());
        let ghost before = r.deep_view();
        r.push(s);
        assert(r.deep_view() =~= before.push(v@[i as int]@));
        assert(views(v@).subrange(0, i + 1) =~= views(v@).subrange(0, i as int).push(
            v@[i as int]@,
        ));
        i = i + 1;
    }
    assert(views(v@).subrange(0, v@.len() as int) =~= views(v@));
    r
}

/// Converts a list of strings into character vectors.
pub fn chars_of_all(v: &[String]) -> (r: Vec<Vec<char>>)
    ensures
        views(r@) == v.deep_view(),
{
    let mut r: Vec<Vec<char>> = Vec::new();
    let mut i: usize = 0;
    while i < v.len()
        invariant
            i <= v@.len(),
            views(r@) == v.deep_view().subrange(0, i as int),
        decreases v@.len() - i,
    {
        let s = chars_of(v[i].as_str());
        let ghost before = views(r@);
        r.push(s);
        assert(views(r@) =~= before.push(v@[i as int]@));
        assert(v.deep_view().subrange(0, i + 1) =~= v.deep_view().subrange(0, i as int).push(
            v@[i as int]@,
        ));
        i = i + 1;
    }
    assert(v.deep_view().subrange(0, v@.len() as int) =~= v.deep_view());
    r
}

/// Deduplicating keeps exactly the elements there were.
pub proof fn lemma_dedup_seq_contains(s: Seq<Seq<char>>, x: Seq<char>)
    ensures
        dedup_seq(s).contains(x) <==> s.contains(x),
    decreases s.len(),
{
    if s.len() > 0 {
        let prev = s.drop_last();
        lemma_dedup_seq_contains(prev, x);
        let d = dedup_seq(prev);
        if s.contains(x) && !prev.contains(x) {
            let i = choose|i: int| 0 <= i < s.len() && s[i] == x;
            if i < prev.len() {
                assert(prev[i] == x);
            }
            assert(x == s.last());
        }
        if prev.contains(x) {
            let i = choose|i: int| 0 <= i < prev.len() && prev[i] == x;
            assert(s[i] == x);
        }
        if !d.contains(s.last()) {
            let e = d.push(s.last());
            if d.contains(x) {
                let i = choose|i: int| 0 <= i < d.len() && d[i] == x;
                assert(e[i] == x);
            }
            assert(e[d.len() as int] == s.last());
            if e.contains(x) && x != s.last() {
                let i = choose|i: int| 0 <= i < e.len() && e[i] == x;
                assert(d[i] == x);
            }
        }
    }
}

/// Deduplicating leaves no element twice.
pub proof fn lemma_dedup_seq_distinct(s: Seq<Seq<char>>)
    ensures
        forall|i: int, j: int|
            0 <= i < j < dedup_seq(s).len() ==> dedup_seq(s)[i] != dedup_seq(s)[j],
    decreases s.len(),
{
    if s.len() > 0 {
        let prev = s.drop_last();
        lemma_dedup_seq_distinct(prev);
        let d = dedup_seq(prev);
        if !d.contains(s.last()) {
            let e = d.push(s.last());
            assert forall|i: int, j: int| 0 <= i < j < e.len() implies e[i] != e[j] by {
                if j == d.len() {
                    assert(e[i] == d[i]);
                    assert(e[j] == s.last());
                    if d[i] == s.last() {
                        assert(d.contains(s.last()));
                    }
                }
            }
        }
    }
}

} // verus!

//! Character-level string helpers shared by the whole library: conversion
//! between `&str`/`String` and character sequences, Unicode case mapping and
//! normalization, character classes, trimming and decimal formatting.
//!
//! Everything is specified over `Seq<char>`, the view of `str` and `String`.
use vstd::prelude::*;

verus! {

/// What `str::to_lowercase` returns for a string.
pub uninterp spec fn lowercase(s: Seq<char>) -> Seq<char>;

/// What `str::to_uppercase` returns for a string.
pub uninterp spec fn uppercase(s: Seq<char>) -> Seq<char>;

/// Whether `char::is_alphabetic` holds of a character.
pub uninterp spec fn is_alphabetic(c: char) -> bool;

/// Whether `char::is_alphanumeric` holds of a character.
pub uninterp spec fn is_alphanumeric(c: char) -> bool;

/// Whether `char::is_whitespace` holds of a character.
pub uninterp spec fn is_whitespace(c: char) -> bool;

/// Whether a character is white space: among ASCII characters exactly
/// space, tab, line feed, vertical tab, form feed and carriage return; any
/// other character as `char::is_whitespace` says.
pub open spec fn white_space(c: char) -> bool {
    if (c as u32) < 128 {
        c == ' ' || c == '\t' || c == '\n' || c == '\x0B' || c == '\x0C' || c == '\r'
    } else {
        is_whitespace(c)
    }
}

/// The NFKD decomposition that `unicode_normalization` computes.
pub uninterp spec fn nfkd(s: Seq<char>) -> Seq<char>;

/// The NFKC composition that `unicode_normalization` computes.
pub uninterp spec fn nfkc(s: Seq<char>) -> Seq<char>;

/// Whether every character of `s` is ASCII.
pub open spec fn all_ascii(s: Seq<char>) -> bool {
    forall|i: int| 0 <= i < s.len() ==> (#[trigger] s[i] as u32) < 128
}

/// `s` with its ASCII upper-case letters made lower-case.
pub open spec fn ascii_lower(s: Seq<char>) -> Seq<char> {
    Seq::new(
        s.len(),
        |i: int|
            if 'A' <= s[i] <= 'Z' {
                ((s[i] as u32) + 32) as char
            } else {
                s[i]
            },
    )
}

/// `s` with its ASCII lower-case letters made upper-case.
pub open spec fn ascii_upper(s: Seq<char>) -> Seq<char> {
    Seq::new(
        s.len(),
        |i: int|
            if 'a' <= s[i] <= 'z' {
                ((s[i] as u32) - 32) as char
            } else {
                s[i]
            },
    )
}

/// The lower-case form of a text: the ASCII mapping on ASCII text, else
/// what `str::to_lowercase` returns.
pub open spec fn lower_text(s: Seq<char>) -> Seq<char> {
    if all_ascii(s) {
        ascii_lower(s)
    } else {
        lowercase(s)
    }
}

/// The upper-case form of a text: the ASCII mapping on ASCII text, else
/// what `str::to_uppercase` returns.
pub open spec fn upper_text(s: Seq<char>) -> Seq<char> {
    if all_ascii(s) {
        ascii_upper(s)
    } else {
        uppercase(s)
    }
}

/// Calls `str::to_lowercase`; the result is named `lowercase`. On ASCII
/// text the Unicode mapping is the ASCII one, which is stated beside the
/// name.
#[verifier::external_body]
pub(crate) fn to_lowercase(s: &str) -> (r: String)
    ensures
        r@ == lowercase(s@),
        r@ == lower_text(s@),
        all_ascii(s@) ==> r@ == ascii_lower(s@),
{
    s.to_lowercase()
}

/// Calls `str::to_uppercase`; the result is named `uppercase`. On ASCII
/// text the Unicode mapping is the ASCII one, which is stated beside the
/// name.
#[verifier::external_body]
pub(crate) fn to_uppercase(s: &str) -> (r: String)
    ensures
        r@ == uppercase(s@),
        r@ == upper_text(s@),
        all_ascii(s@) ==> r@ == ascii_upper(s@),
{
    s.to_uppercase()
}

/// Whether `c` is an ASCII letter.
pub open spec fn is_ascii_letter(c: char) -> bool {
    ('a' <= c <= 'z') || ('A' <= c <= 'Z')
}

/// Whether `c` is an ASCII digit.
pub open spec fn is_ascii_digit(c: char) -> bool {
    '0' <= c <= '9'
}

/// Calls `char::is_alphabetic`. Among ASCII characters exactly the letters
/// have the Unicode Alphabetic property; that is stated beside the name.
#[verifier::external_body]
pub(crate) fn char_is_alphabetic(c: char) -> (b: bool)
    ensures
        b == is_alphabetic(c),
        (c as u32) < 128 ==> (b == is_ascii_letter(c)),
{
    c.is_alphabetic()
}

/// Calls `char::is_alphanumeric`. Its documentation defines it as
/// `is_alphabetic() || is_numeric()`, so every alphabetic character is
/// alphanumeric; among ASCII characters exactly the letters and digits are
/// alphanumeric. Those two facts are stated beside the name.
#[verifier::external_body]
pub(crate) fn char_is_alphanumeric(c: char) -> (b: bool)
    ensures
        b == is_alphanumeric(c),
        is_alphabetic(c) ==> b,
        (c as u32) < 128 ==> (b == (is_ascii_letter(c) || is_ascii_digit(c))),
{
    c.is_alphanumeric()
}

/// Calls `char::is_whitespace` (the Unicode White_Space property). Among
/// ASCII characters exactly space, tab, line feed, vertical tab, form feed
/// and carriage return have it; that is stated beside the name.
#[verifier::external_body]
pub(crate) fn char_is_whitespace(c: char) -> (b: bool)
    ensures
        b == is_whitespace(c),
        b == white_space(c),
        (c as u32) < 128 ==> (b == (c == ' ' || c == '\t' || c == '\n' || c == '\x0B' || c == '\x0C'
            || c == '\r')),
{
    c.is_whitespace()
}

/// Calls `UnicodeNormalization::nfkd` and collects the characters. ASCII
/// characters have no decomposition, so ASCII text comes back unchanged.
#[verifier::external_body]
pub(crate) fn to_nfkd(s: &str) -> (r: String)
    ensures
        r@ == nfkd(s@),
        all_ascii(s@) ==> r@ == s@,
{
    unicode_normalization::UnicodeNormalization::nfkd(s).collect()
}

/// Calls `UnicodeNormalization::nfkc` and collects the characters. ASCII
/// characters neither decompose nor compose, so ASCII text comes back
/// unchanged.
#[verifier::external_body]
pub(crate) fn to_nfkc(s: &str) -> (r: String)
    ensures
        r@ == nfkc(s@),
        all_ascii(s@) ==> r@ == s@,
{
    unicode_normalization::UnicodeNormalization::nfkc(s).collect()
}

/// Appends one character to a string.
pub assume_specification[ String::push ](s: &mut String, ch: char)
    ensures
        final(s)@ == old(s)@.push(ch),
;

/// The characters of `s`, in order.
pub fn chars_of(s: &str) -> (v: Vec<char>)
    ensures
        v@ == s@,
{
    let n = s.unicode_len();
    let mut v: Vec<char> = Vec::new();
    let mut i: usize = 0;
    while i < n
        invariant
            n == s@.len(),
            i <= n,
            v@ == s@.subrange(0, i as int),
        decreases n - i,
    {
        let c = s.get_char(i);
        v.push(c);
        i = i + 1;
        assert(v@ =~= s@.subrange(0, i as int));
    }
    assert(v@ =~= s@);
    v
}

/// The string made of the characters of `v`.
pub fn string_from_chars(v: &[char]) -> (s: String)
    ensures
        s@ == v@,
{
    let mut s = String::new();
    let mut i: usize = 0;
    while i < v.len()
        invariant
            i <= v@.len(),
            s@ == v@.subrange(0, i as int),
        decreases v@.len() - i,
    {
        s.push(v[i]);
        i = i + 1;
        assert(s@ =~= v@.subrange(0, i as int));
    }
    assert(s@ =~= v@);
    s
}

/// The characters of `s` from `start` (inclusive) to `end` (exclusive).
pub fn substring(s: &Vec<char>, start: usize, end: usize) -> (r: String)
    requires
        start <= end <= s@.len(),
    ensures
        r@ == s@.subrange(start as int, end as int),
{
    let mut r = String::new();
    let mut i: usize = start;
    while i < end
        invariant
            start <= i <= end <= s@.len(),
            r@ == s@.subrange(start as int, i as int),
        decreases end - i,
    {
        r.push(s[i]);
        i = i + 1;
        assert(r@ =~= s@.subrange(start as int, i as int));
    }
    r
}

/// A fresh copy of a string.
pub fn copy_str(s: &str) -> (r: String)
    ensures
        r@ == s@,
{
    String::from_str(s)
}

/// Whether two character sequences are equal, compared character by
/// character.
pub fn seq_eq(a: &Vec<char>, b: &Vec<char>) -> (r: bool)
    ensures
        r == (a@ == b@),
{
    if a.len() != b.len() {
        return false;
    }
    let mut i: usize = 0;
    while i < a.len()
        invariant
            a@.len() == b@.len(),
            i <= a@.len(),
            forall|j: int| 0 <= j < i ==> a@[j] == b@[j],
        decreases a@.len() - i,
    {
        if a[i] != b[i] {
            return false;
        }
        i = i + 1;
    }
    assert(a@ =~= b@);
    true
}

/// Whether two strings are equal.
pub fn str_eq(a: &str, b: &str) -> (r: bool)
    ensures
        r == (a@ == b@),
{
    let va = chars_of(a);
    let vb = chars_of(b);
    seq_eq(&va, &vb)
}

/// Whether `prefix` is a prefix of `s`.
pub open spec fn has_prefix(s: Seq<char>, prefix: Seq<char>) -> bool {
    prefix.len() <= s.len() && s.subrange(0, prefix.len() as int) == prefix
}

/// Whether `s` starts with `prefix`.
pub fn starts_with(s: &str, prefix: &str) -> (r: bool)
    ensures
        r == has_prefix(s@, prefix@),
{
    let vs = chars_of(s);
    let vp = chars_of(prefix);
    if vp.len() > vs.len() {
        return false;
    }
    let mut i: usize = 0;
    while i < vp.len()
        invariant
            vs@ == s@,
            vp@ == prefix@,
            vp@.len() <= vs@.len(),
            i <= vp@.len(),
            forall|j: int| 0 <= j < i ==> vs@[j] == vp@[j],
        decreases vp@.len() - i,
    {
        if vs[i] != vp[i] {
            assert(vs@.subrange(0, vp@.len() as int)[i as int] != vp@[i as int]);
            return false;
        }
        i = i + 1;
    }
    assert(vs@.subrange(0, vp@.len() as int) =~= vp@);
    true
}

/// Whether `needle` occurs in `s` starting at index `i`.
pub open spec fn occurs_at(s: Seq<char>, needle: Seq<char>, i: int) -> bool {
    0 <= i && i + needle.len() <= s.len() && s.subrange(i, i + needle.len()) == needle
}

/// Whether `needle` occurs anywhere in `s`.
pub open spec fn contains_seq(s: Seq<char>, needle: Seq<char>) -> bool {
    exists|i: int| occurs_at(s, needle, i)
}

/// Whether `needle` occurs in `s` at index `i`, checked character by
/// character.
fn matches_at(s: &Vec<char>, needle: &Vec<char>, i: usize) -> (r: bool)
    requires
        i <= s@.len(),
    ensures
        r == occurs_at(s@, needle@, i as int),
{
    if needle.len() > s.len() - i {
        return false;
    }
    let n = s.len();
    let mut j: usize = 0;
    while j < needle.len()
        invariant
            n == s@.len(),
            i + needle@.len() <= s@.len(),
            j <= needle@.len(),
            forall|k: int| 0 <= k < j ==> s@[i + k] == needle@[k],
        decreases needle@.len() - j,
    {
        assert(i + j < s@.len());
        if s[i + j] != needle[j] {
            assert(s@.subrange(i as int, i + needle@.len())[j as int] != needle@[j as int]);
            return false;
        }
        j = j + 1;
    }
    assert(s@.subrange(i as int, i + needle@.len()) =~= needle@);
    true
}

/// Whether `needle` occurs in `s`.
pub fn contains_str(s: &str, needle: &str) -> (r: bool)
    ensures
        r == contains_seq(s@, needle@),
{
    let vs = chars_of(s);
    let vn = chars_of(needle);
    let mut i: usize = 0;
    while i <= vs.len()
        invariant_except_break
            i <= vs@.len(),
            vs@ == s@,
            vn@ == needle@,
            forall|k: int| 0 <= k < i ==> !occurs_at(s@, needle@, k),
        ensures
            forall|k: int| 0 <= k <= vs@.len() ==> !occurs_at(s@, needle@, k),
        decreases vs@.len() + 1 - i,
    {
        if matches_at(&vs, &vn, i) {
            return true;
        }
        if i == vs.len() {
            break;
        }
        i = i + 1;
    }
    assert forall|k: int| !occurs_at(s@, needle@, k) by {
        if 0 <= k && k + needle@.len() <= s@.len() {
            assert(k <= vs@.len());
        }
    }
    false
}

/// Index of the first character of `s` at or after `from` that is not
/// whitespace, or `s.len()` when there is none.
pub open spec fn first_non_ws(s: Seq<char>, from: int) -> int
    decreases s.len() - from,
{
    if from >= s.len() {
        s.len() as int
    } else if white_space(s[from]) {
        first_non_ws(s, from + 1)
    } else {
        from
    }
}

/// One past the index of the last character of `s` before `to` that is not
/// whitespace, or `0` when there is none.
pub open spec fn last_non_ws_end(s: Seq<char>, to: int) -> int
    decreases to,
{
    if to <= 0 {
        0
    } else if white_space(s[to - 1]) {
        last_non_ws_end(s, to - 1)
    } else {
        to
    }
}

/// `s` without leading and trailing whitespace, as `str::trim` defines it.
pub open spec fn trim_spec(s: Seq<char>) -> Seq<char> {
    let start = first_non_ws(s, 0);
    let end = last_non_ws_end(s, s.len() as int);
    if start >= end {
        Seq::empty()
    } else {
        s.subrange(start, end)
    }
}

pub proof fn lemma_first_non_ws_bounds(s: Seq<char>, from: int)
    requires
        0 <= from <= s.len(),
    ensures
        from <= first_non_ws(s, from) <= s.len(),
        forall|k: int| from <= k < first_non_ws(s, from) ==> white_space(#[trigger] s[k]),
        first_non_ws(s, from) < s.len() ==> !white_space(s[first_non_ws(s, from)]),
    decreases s.len() - from,
{
    if from < s.len() && white_space(s[from]) {
        lemma_first_non_ws_bounds(s, from + 1);
    }
}

pub proof fn lemma_last_non_ws_bounds(s: Seq<char>, to: int)
    requires
        0 <= to <= s.len(),
    ensures
        0 <= last_non_ws_end(s, to) <= to,
        forall|k: int| last_non_ws_end(s, to) <= k < to ==> white_space(#[trigger] s[k]),
        last_non_ws_end(s, to) > 0 ==> !white_space(s[last_non_ws_end(s, to) - 1]),
    decreases to,
{
    if to > 0 && white_space(s[to - 1]) {
        lemma_last_non_ws_bounds(s, to - 1);
    }
}

/// A trimmed text neither starts nor ends with white space, and trimming
/// it again changes nothing.
pub proof fn lemma_trim_spec_trimmed(s: Seq<char>)
    ensures
        trim_spec(s).len() > 0 ==> !white_space(trim_spec(s)[0]) && !white_space(trim_spec(s).last()),
        trim_spec(trim_spec(s)) == trim_spec(s),
{
    lemma_first_non_ws_bounds(s, 0);
    lemma_last_non_ws_bounds(s, s.len() as int);
    lemma_trim_spec_keeps(trim_spec(s));
}

/// A text that neither starts nor ends with white space is its own trim.
pub proof fn lemma_trim_spec_keeps(s: Seq<char>)
    requires
        s.len() > 0 ==> !white_space(s[0]) && !white_space(s.last()),
    ensures
        trim_spec(s) == s,
{
    if s.len() > 0 {
        assert(first_non_ws(s, 0) == 0);
        assert(last_non_ws_end(s, s.len() as int) == s.len());
        assert(s.subrange(0, s.len() as int) =~= s);
    } else {
        assert(trim_spec(s) =~= s);
    }
}

/// The characters of `s` without leading and trailing whitespace.
pub fn trim_chars(s: &Vec<char>) -> (r: Vec<char>)
    ensures
        r@ == trim_spec(s@),
{
    let mut start: usize = 0;
    while start < s.len() && char_is_whitespace(s[start])
        invariant
            start <= s@.len(),
            first_non_ws(s@, 0) == first_non_ws(s@, start as int),
        decreases s@.len() - start,
    {
        start = start + 1;
    }
    let mut end: usize = s.len();
    while end > 0 && char_is_whitespace(s[end - 1])
        invariant
            end <= s@.len(),
            last_non_ws_end(s@, s@.len() as int) == last_non_ws_end(s@, end as int),
        decreases end,
    {
        end = end - 1;
    }
    let mut r: Vec<char> = Vec::new();
    if start >= end {
        return r;
    }
    let mut i: usize = start;
    while i < end
        invariant
            start <= i <= end <= s@.len(),
            r@ == s@.subrange(start as int, i as int),
        decreases end - i,
    {
        r.push(s[i]);
        i = i + 1;
        assert(r@ =~= s@.subrange(start as int, i as int));
    }
    r
}

/// `s` without leading and trailing whitespace.
pub fn trim(s: &str) -> (r: String)
    ensures
        r@ == trim_spec(s@),
{
    let v = chars_of(s);
    let t = trim_chars(&v);
    string_from_chars(t.as_slice())
}

/// The decimal digit character for `d`.
pub open spec fn digit_char(d: nat) -> char {
    if d == 0 {
        '0'
    } else if d == 1 {
        '1'
    } else if d == 2 {
        '2'
    } else if d == 3 {
        '3'
    } else if d == 4 {
        '4'
    } else if d == 5 {
        '5'
    } else if d == 6 {
        '6'
    } else if d == 7 {
        '7'
    } else if d == 8 {
        '8'
    } else {
        '9'
    }
}

/// The decimal representation of `n`, without leading zeros.
pub open spec fn decimal(n: nat) -> Seq<char>
    decreases n,
{
    if n < 10 {
        seq![digit_char(n)]
    } else {
        decimal(n / 10).push(digit_char(n % 10))
    }
}

fn digit_to_char(d: u64) -> (c: char)
    requires
        d < 10,
    ensures
        c == digit_char(d as nat),
{
    match d {
        0 => '0',
        1 => '1',
        2 => '2',
        3 => '3',
        4 => '4',
        5 => '5',
        6 => '6',
        7 => '7',
        8 => '8',
        _ => '9',
    }
}

/// Appends the decimal representation of `n` to `out`.
pub fn push_decimal(out: &mut String, n: u64)
    ensures
        final(out)@ == old(out)@ + decimal(n as nat),
    decreases n,
{
    if n >= 10 {
        push_decimal(out, n / 10);
    }
    let c = digit_to_char(n % 10);
    out.push(c);
    proof {
        if n >= 10 {
            assert(decimal(n as nat) == decimal((n / 10) as nat).push(digit_char((n % 10) as nat)));
        }
    }
    assert(final(out)@ =~= old(out)@ + decimal(n as nat));
}

/// Appends `s` to `out`.
pub fn push_str(out: &mut String, s: &str)
    ensures
        final(out)@ == old(out)@ + s@,
{
    out.append(s);
}

/// Appends the decimal representation of the signed `n` to `out`, with a
/// leading minus sign when it is negative.
pub fn push_signed_decimal(out: &mut String, n: i32)
    ensures
        final(out)@ == old(out)@ + signed_decimal(n as int),
{
    if n < 0 {
        out.push('-');
        let magnitude: i64 = -(n as i64);
        push_decimal(out, magnitude as u64);
        assert(final(out)@ =~= old(out)@ + signed_decimal(n as int));
    } else {
        push_decimal(out, n as u64);
    }
}

/// Appends the decimal representation of the signed 64-bit `n` to `out`,
/// with a leading minus sign when it is negative.
pub fn push_i64_decimal(out: &mut String, n: i64)
    ensures
        final(out)@ == old(out)@ + signed_decimal(n as int),
{
    if n < 0 {
        out.push('-');
        let magnitude: i128 = -(n as i128);
        push_decimal(out, magnitude as u64);
        assert(final(out)@ =~= old(out)@ + signed_decimal(n as int));
    } else {
        push_decimal(out, n as u64);
    }
}

/// The decimal representation of a signed number.
pub open spec fn signed_decimal(n: int) -> Seq<char> {
    if n < 0 {
        seq!['-'] + decimal((-n) as nat)
    } else {
        decimal(n as nat)
    }
}

/// `parts` with `sep` between each two neighbours.
pub open spec fn joined(parts: Seq<Seq<char>>, sep: Seq<char>) -> Seq<char>
    decreases parts.len(),
{
    if parts.len() == 0 {
        Seq::empty()
    } else if parts.len() == 1 {
        parts[0]
    } else {
        joined(parts.drop_last(), sep) + sep + parts.last()
    }
}

/// Joining one more part onto a prefix of `parts`.
pub proof fn lemma_joined_extend(parts: Seq<Seq<char>>, sep: Seq<char>, i: int)
    requires
        0 <= i < parts.len(),
    ensures
        joined(parts.take(i + 1), sep) == (if i == 0 {
            parts[0]
        } else {
            joined(parts.take(i), sep) + sep + parts[i]
        }),
{
    assert(parts.take(i + 1).drop_last() =~= parts.take(i));
}

/// `s` from position `i` on with every occurrence of the non-empty `pat`
/// replaced by `with`, the occurrences found from the left without
/// overlapping: what `str::replace` returns for a non-empty pattern.
pub open spec fn replaced_from(s: Seq<char>, pat: Seq<char>, with: Seq<char>, i: int) -> Seq<char>
    decreases s.len() - i,
{
    if i < 0 || i >= s.len() {
        Seq::empty()
    } else if pat.len() > 0 && i + pat.len() <= s.len() && s.subrange(i, i + pat.len()) == pat {
        with + replaced_from(s, pat, with, i + pat.len())
    } else {
        seq![s[i]] + replaced_from(s, pat, with, i + 1)
    }
}

fn occurs_at_exec(s: &Vec<char>, pat: &Vec<char>, i: usize) -> (r: bool)
    requires
        i <= s@.len(),
    ensures
        r == (i + pat@.len() <= s@.len() && s@.subrange(i as int, i + pat@.len()) == pat@),
{
    if pat.len() > s.len() - i {
        return false;
    }
    let n = s.len();
    let mut k: usize = 0;
    while k < pat.len()
        invariant
            n == s@.len(),
            i <= s@.len(),
            i + pat@.len() <= s@.len(),
            k <= pat@.len(),
            forall|j: int| 0 <= j < k ==> s@[i + j] == pat@[j],
        decreases pat@.len() - k,
    {
        if s[i + k] != pat[k] {
            assert(s@.subrange(i as int, i + pat@.len())[k as int] != pat@[k as int]);
            return false;
        }
        k = k + 1;
    }
    assert(s@.subrange(i as int, i + pat@.len()) =~= pat@);
    true
}

/// Replaces every occurrence of the non-empty `pat` in `s` by `with`.
pub fn replace_text(s: &str, pat: &str, with: &str) -> (r: String)
    ensures
        r@ == replaced_from(s@, pat@, with@, 0),
{
    let v = chars_of(s);
    let p = chars_of(pat);
    let mut out = String::new();
    let mut i: usize = 0;
    while i < v.len()
        invariant
            v@ == s@,
            p@ == pat@,
            i <= v@.len(),
            out@ + replaced_from(v@, p@, with@, i as int) == replaced_from(v@, p@, with@, 0),
        decreases v@.len() - i,
    {
        let ghost before = out@;
        if p.len() > 0 && occurs_at_exec(&v, &p, i) {
            push_str(&mut out, with);
            assert(out@ + replaced_from(v@, p@, with@, i + p@.len()) =~= before + replaced_from(v@, p@, with@, i as int));
            i = i + p.len();
        } else {
            out.push(v[i]);
            assert(out@ + replaced_from(v@, p@, with@, i + 1) =~= before + replaced_from(v@, p@, with@, i as int));
            i = i + 1;
        }
    }
    assert(out@ =~= replaced_from(v@, p@, with@, 0));
    out
}

} // verus!

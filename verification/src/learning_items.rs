//! Learning items: small, concrete learning targets (word forms, contrast
//! pairs), their slugs and the fuzzy name matching used to deduplicate them
//! and curriculum topics.
use vstd::prelude::*;

use crate::curriculum::{is_abstract_spec, is_abstract_topic_name, Topic};
use crate::session::models::opt_seq;
use crate::vocabulary::{copy_opt, trim_dashes, trim_dashes_exec};
use crate::text::{
    char_is_alphanumeric, chars_of, copy_str, push_str, contains_seq, contains_str, is_alphanumeric, lower_text, nfkd,
    string_from_chars, to_lowercase, to_nfkd, trim_chars, trim_spec,
};
use crate::words::{
    Sep, all_in, all_words_in, chars_of_all, contains_word, count_in, count_words_in, dedup_seq,
    dedup_words, keep_alpha, lemma_dedup_seq_contains, lemma_dedup_seq_distinct, keep_class, normalize_token, normalize_token_spec, split_by,
    split_pieces, strings_from, views,
};

verus! {

/// A word-level practice item (a word, a word pair, a false friend) kept
/// apart from the grammar curriculum.
#[derive(Debug, Clone, Default, PartialEq)]
pub struct LearningItem {
    pub id: String,
    pub name: String,
    pub description: String,
    pub level: Option<String>,
    pub target_lang: String,
    pub native_lang: String,
    /// The practice score as the bit pattern of an IEEE-754 double.
    pub score_bits: u64,
    pub last_practiced: Option<String>,
    pub practice_count: i32,
    /// RFC3339 timestamp of the last modification; `None` means "unknown"
    /// (predates sync support) and sorts as the oldest.
    pub updated_at: Option<String>,
    /// RFC3339 tombstone marker; `Some` rows are hidden from reads.
    pub deleted_at: Option<String>,
}

impl LearningItem {
    /// The deterministic id of an item: `"{target_lang}-{slug(name)}"` with
    /// the dashes at either end trimmed.
    pub fn slug_id(name: &str, target_lang: &str) -> (r: String)
        ensures
            r@ == trim_dashes(target_lang@ + "-"@ + slugify_spec(name@)),
    {
        let mut base = copy_str(target_lang);
        push_str(&mut base, "-");
        let slug = slugify(name);
        push_str(&mut base, slug.as_str());
        let bv = chars_of(base.as_str());
        trim_dashes_exec(&bv)
    }

    /// A fresh item for a topic: its id from the topic's name, the topic's
    /// texts and languages, and no practice yet (score zero).
    pub fn from_topic(topic: &Topic) -> (r: LearningItem)
        ensures
            r.id@ == trim_dashes(topic.target_lang@ + "-"@ + slugify_spec(topic.name@)),
            r.name@ == topic.name@,
            r.description@ == topic.description@,
            opt_seq(r.level) == opt_seq(topic.level),
            r.target_lang@ == topic.target_lang@,
            r.native_lang@ == topic.native_lang@,
            r.score_bits == 0,
            r.last_practiced is None,
            r.practice_count == 0,
            r.updated_at is None,
            r.deleted_at is None,
    {
        LearningItem {
            id: LearningItem::slug_id(topic.name.as_str(), topic.target_lang.as_str()),
            name: copy_str(topic.name.as_str()),
            description: copy_str(topic.description.as_str()),
            level: copy_opt(&topic.level),
            target_lang: copy_str(topic.target_lang.as_str()),
            native_lang: copy_str(topic.native_lang.as_str()),
            score_bits: 0,
            last_practiced: None,
            practice_count: 0,
            updated_at: None,
            deleted_at: None,
        }
    }
}

/// Whether `c` is a combining diacritical mark (the blocks U+0300–U+036F,
/// U+1AB0–U+1AFF, U+1DC0–U+1DFF, U+20D0–U+20FF and U+FE20–U+FE2F).
pub open spec fn is_combining_mark_spec(c: char) -> bool {
    let u = c as u32;
    (0x0300 <= u <= 0x036F) || (0x1AB0 <= u <= 0x1AFF) || (0x1DC0 <= u <= 0x1DFF) || (0x20D0 <= u
        <= 0x20FF) || (0xFE20 <= u <= 0xFE2F)
}

fn is_combining_mark(c: char) -> (r: bool)
    ensures
        r == is_combining_mark_spec(c),
{
    let u = c as u32;
    (0x0300 <= u && u <= 0x036F) || (0x1AB0 <= u && u <= 0x1AFF) || (0x1DC0 <= u && u <= 0x1DFF)
        || (0x20D0 <= u && u <= 0x20FF) || (0xFE20 <= u && u <= 0xFE2F)
}

/// `s` without combining marks.
pub open spec fn drop_marks(s: Seq<char>) -> Seq<char>
    decreases s.len(),
{
    if s.len() == 0 {
        s
    } else if is_combining_mark_spec(s.last()) {
        drop_marks(s.drop_last())
    } else {
        drop_marks(s.drop_last()).push(s.last())
    }
}

/// Scans `s` left to right, copying alphanumeric characters and turning
/// each run of other characters into one `-` (none at the start). The flag
/// tells whether the output so far is empty or ends with `-`.
pub open spec fn slug_scan(s: Seq<char>) -> (Seq<char>, bool)
    decreases s.len(),
{
    if s.len() == 0 {
        (Seq::empty(), true)
    } else {
        let (o, prev_dash) = slug_scan(s.drop_last());
        let c = s.last();
        if is_alphanumeric(c) {
            (o.push(c), false)
        } else if !prev_dash {
            (o.push('-'), true)
        } else {
            (o, prev_dash)
        }
    }
}

/// The slug of `input`: accents removed (NFKD, combining marks dropped),
/// lowercased, every run of non-alphanumeric characters turned into a single
/// `-`, with no `-` at either end.
pub open spec fn slugify_spec(input: Seq<char>) -> Seq<char> {
    let o = slug_scan(lower_text(drop_marks(nfkd(input)))).0;
    if o.len() > 0 && o.last() == '-' {
        o.drop_last()
    } else {
        o
    }
}

/// Whether `s` is a well-shaped slug: only alphanumeric characters and
/// `-`, with no `-` at either end and never two in a row.
pub open spec fn is_slug_shaped(s: Seq<char>) -> bool {
    &&& forall|i: int| 0 <= i < s.len() ==> (is_alphanumeric(#[trigger] s[i]) || s[i] == '-')
    &&& (s.len() > 0 ==> s[0] != '-' && s.last() != '-')
    &&& forall|i: int| 0 <= i < s.len() - 1 ==> !(#[trigger] s[i] == '-' && s[i + 1] == '-')
}

proof fn lemma_slug_scan_shape(s: Seq<char>)
    requires
        !is_alphanumeric('-'),
    ensures
        ({
            let (o, pd) = slug_scan(s);
            &&& forall|i: int| 0 <= i < o.len() ==> (is_alphanumeric(#[trigger] o[i]) || o[i] == '-')
            &&& (o.len() > 0 ==> o[0] != '-')
            &&& forall|i: int| 0 <= i < o.len() - 1 ==> !(#[trigger] o[i] == '-' && o[i + 1] == '-')
            &&& pd == (o.len() == 0 || o.last() == '-')
        }),
    decreases s.len(),
{
    if s.len() > 0 {
        lemma_slug_scan_shape(s.drop_last());
        let (o, pd) = slug_scan(s.drop_last());
        let c = s.last();
        if is_alphanumeric(c) {
            assert forall|i: int| 0 <= i < o.push(c).len() - 1 implies !(#[trigger] o.push(c)[i]
                == '-' && o.push(c)[i + 1] == '-') by {
                if i < o.len() - 1 {
                    assert(o.push(c)[i] == o[i] && o.push(c)[i + 1] == o[i + 1]);
                }
            }
        } else if !pd {
            assert forall|i: int| 0 <= i < o.push('-').len() - 1 implies !(
            #[trigger] o.push('-')[i] == '-' && o.push('-')[i + 1] == '-') by {
                if i < o.len() - 1 {
                    assert(o.push('-')[i] == o[i] && o.push('-')[i + 1] == o[i + 1]);
                } else {
                    assert(o.push('-')[i] == o.last());
                }
            }
        }
    }
}

/// A slug never starts or ends with `-`, never holds two `-` in a row, and
/// holds nothing but alphanumeric characters and `-`. (`-` itself is not
/// alphanumeric, as `char::is_alphanumeric` reports.)
pub proof fn lemma_slug_is_shaped(input: Seq<char>)
    requires
        !is_alphanumeric('-'),
    ensures
        is_slug_shaped(slugify_spec(input)),
{
    let t = lower_text(drop_marks(nfkd(input)));
    lemma_slug_scan_shape(t);
    let o = slug_scan(t).0;
    if o.len() > 0 && o.last() == '-' {
        let d = o.drop_last();
        if d.len() > 0 {
            assert(d[0] == o[0]);
            assert(o[d.len() - 1] == d.last());
            assert(!(o[d.len() - 1] == '-' && o[d.len() as int] == '-'));
        }
        assert forall|i: int| 0 <= i < d.len() - 1 implies !(#[trigger] d[i] == '-' && d[i + 1]
            == '-') by {
            assert(d[i] == o[i] && d[i + 1] == o[i + 1]);
        }
        assert forall|i: int| 0 <= i < d.len() implies (is_alphanumeric(#[trigger] d[i]) || d[i]
            == '-') by {
            assert(d[i] == o[i]);
        }
    }
}

/// Turns a name into a slug (see `slugify_spec`): "pequeño/pequeña" becomes
/// "pequeno-pequena".
pub fn slugify(input: &str) -> (r: String)
    ensures
        r@ == slugify_spec(input@),
{
    let decomposed = to_nfkd(input);
    let dv = chars_of(decomposed.as_str());
    let mut without_marks: Vec<char> = Vec::new();
    let mut i: usize = 0;
    while i < dv.len()
        invariant
            i <= dv@.len(),
            without_marks@ == drop_marks(dv@.subrange(0, i as int)),
        decreases dv@.len() - i,
    {
        let c = dv[i];
        if !is_combining_mark(c) {
            without_marks.push(c);
        }
        proof {
            let pre = dv@.subrange(0, i + 1);
            assert(pre.drop_last() =~= dv@.subrange(0, i as int));
            assert(pre.last() == c);
        }
        i = i + 1;
    }
    assert(dv@.subrange(0, dv@.len() as int) =~= dv@);
    let wm = string_from_chars(without_marks.as_slice());
    let lowered = to_lowercase(wm.as_str());
    let lv = chars_of(lowered.as_str());
    let mut out: Vec<char> = Vec::new();
    let mut prev_dash = true;
    let mut j: usize = 0;
    while j < lv.len()
        invariant
            j <= lv@.len(),
            (out@, prev_dash) == slug_scan(lv@.subrange(0, j as int)),
        decreases lv@.len() - j,
    {
        let c = lv[j];
        proof {
            let pre = lv@.subrange(0, j + 1);
            assert(pre.drop_last() =~= lv@.subrange(0, j as int));
            assert(pre.last() == c);
        }
        if char_is_alphanumeric(c) {
            out.push(c);
            prev_dash = false;
        } else if !prev_dash {
            out.push('-');
            prev_dash = true;
        }
        j = j + 1;
    }
    assert(lv@.subrange(0, lv@.len() as int) =~= lv@);
    if out.len() > 0 && out[out.len() - 1] == '-' {
        out.pop();
    }
    string_from_chars(out.as_slice())
}

/// The non-empty pieces of `ps`, in order.
pub open spec fn nonempty_pieces(ps: Seq<Seq<char>>) -> Seq<Seq<char>>
    decreases ps.len(),
{
    if ps.len() == 0 {
        ps
    } else if ps.last().len() > 0 {
        nonempty_pieces(ps.drop_last()).push(ps.last())
    } else {
        nonempty_pieces(ps.drop_last())
    }
}

/// The words of `s` as `str::split_whitespace` yields them.
pub open spec fn whitespace_words(s: Seq<char>) -> Seq<Seq<char>> {
    nonempty_pieces(split_pieces(s, Sep::Whitespace))
}

fn nonempty_only(ps: &Vec<Vec<char>>) -> (r: Vec<Vec<char>>)
    ensures
        views(r@) == nonempty_pieces(views(ps@)),
{
    let mut r: Vec<Vec<char>> = Vec::new();
    let mut i: usize = 0;
    while i < ps.len()
        invariant
            i <= ps@.len(),
            views(r@) == nonempty_pieces(views(ps@).subrange(0, i as int)),
        decreases ps@.len() - i,
    {
        let ghost before = views(r@);
        proof {
            let pre = views(ps@).subrange(0, i + 1);
            assert(pre.drop_last() =~= views(ps@).subrange(0, i as int));
            assert(pre.last() == ps@[i as int]@);
        }
        if ps[i].len() > 0 {
            r.push(ps[i].clone());
            assert(views(r@) =~= before.push(ps@[i as int]@));
        }
        i = i + 1;
    }
    assert(views(ps@).subrange(0, ps@.len() as int) =~= views(ps@));
    r
}

/// Whether every character of `s` is ASCII.
pub open spec fn all_ascii(s: Seq<char>) -> bool {
    forall|i: int| 0 <= i < s.len() ==> (s[i] as u32) < 128
}

fn all_ascii_exec(s: &Vec<char>) -> (r: bool)
    ensures
        r == all_ascii(s@),
{
    let mut i: usize = 0;
    while i < s.len()
        invariant
            i <= s@.len(),
            forall|j: int| 0 <= j < i ==> (s@[j] as u32) < 128,
        decreases s@.len() - i,
    {
        if s[i] as u32 >= 128 {
            return false;
        }
        i = i + 1;
    }
    true
}

/// Whether a word looks like a target-language word: once reduced to its
/// letters it is non-empty and either holds a non-ASCII letter or is at
/// most four letters long.
pub open spec fn looks_foreign(w: Seq<char>) -> bool {
    let stripped = keep_alpha(w);
    stripped.len() > 0 && (!all_ascii(stripped) || stripped.len() <= 4)
}

/// Whether some whitespace-separated word of `name` looks like a
/// target-language word.
pub open spec fn has_target_language_word_spec(name: Seq<char>) -> bool {
    exists|i: int|
        0 <= i < whitespace_words(name).len() && #[trigger] looks_foreign(whitespace_words(name)[i])
}

fn has_target_language_word(name: &Vec<char>) -> (r: bool)
    ensures
        r == has_target_language_word_spec(name@),
{
    let pieces = split_by(name, Sep::Whitespace);
    let words = nonempty_only(&pieces);
    let mut i: usize = 0;
    while i < words.len()
        invariant
            i <= words@.len(),
            views(words@) == whitespace_words(name@),
            forall|j: int| 0 <= j < i ==> !looks_foreign(#[trigger] views(words@)[j]),
        decreases words@.len() - i,
    {
        let stripped = keep_class(&words[i], false);
        let foreign = stripped.len() > 0 && (!all_ascii_exec(&stripped) || stripped.len() <= 4);
        if foreign {
            assert(looks_foreign(views(words@)[i as int]));
            return true;
        }
        assert(!looks_foreign(views(words@)[i as int]));
        i = i + 1;
    }
    false
}

/// What `is_learning_item_name` decides: after trimming, the name is
/// non-empty and not an abstract topic name, and its lowercase form holds a
/// contrast marker (`/`, ` vs `, ` and `, ` or `), or a colon within at most
/// seven words, or it has at most six words one of which looks like a
/// target-language word.
pub open spec fn is_learning_item_name_spec(name: Seq<char>) -> bool {
    let trimmed = trim_spec(name);
    if trimmed.len() == 0 || is_abstract_spec(trimmed) {
        false
    } else {
        let lower = lower_text(trimmed);
        let n = whitespace_words(lower).len();
        let contrast = contains_seq(lower, "/"@) || contains_seq(lower, " vs "@) || contains_seq(
            lower,
            " and "@,
        ) || contains_seq(lower, " or "@);
        let colon = contains_seq(lower, ":"@) && n <= 7;
        let short = n <= 6 && has_target_language_word_spec(trimmed);
        contrast || colon || short
    }
}

/// Heuristic that decides whether a generated topic is a small, concrete
/// learning target (word form, contrast pair, micro-pattern) rather than a
/// broad curriculum topic.
pub fn is_learning_item_name(name: &str) -> (r: bool)
    ensures
        r == is_learning_item_name_spec(name@),
{
    let nv = chars_of(name);
    let tv = trim_chars(&nv);
    let trimmed = string_from_chars(tv.as_slice());
    if tv.len() == 0 || is_abstract_topic_name(trimmed.as_str()) {
        return false;
    }
    let lower = to_lowercase(trimmed.as_str());
    let lv = chars_of(lower.as_str());
    let pieces = split_by(&lv, Sep::Whitespace);
    let words = nonempty_only(&pieces);
    let n = words.len();
    let has_contrast_marker = contains_str(lower.as_str(), "/") || contains_str(
        lower.as_str(),
        " vs ",
    ) || contains_str(lower.as_str(), " and ") || contains_str(lower.as_str(), " or ");
    let has_colon_example = contains_str(lower.as_str(), ":") && n <= 7;
    let is_short_concrete = n <= 6 && has_target_language_word(&tv);
    has_contrast_marker || has_colon_example || is_short_concrete
}

/// Grammar labels and generic connectors (English and Russian) that carry
/// no meaning when matching item names.
pub open spec fn stop_words() -> Seq<Seq<char>> {
    seq![
        "adverb"@,
        "verb"@,
        "verbs"@,
        "noun"@,
        "adjective"@,
        "article"@,
        "preposition"@,
        "vs"@,
        "and"@,
        "or"@,
        "the"@,
        "a"@,
        "an"@,
        "with"@,
        "for"@,
        "in"@,
        "on"@,
        "at"@,
        "of"@,
        "to"@,
        "с"@,
        "для"@,
        "и"@,
        "или"@,
        "по"@,
        "на"@,
        "в"@,
        "от"@,
        "из"@,
    ]
}

fn stop_word_list() -> (r: Vec<Vec<char>>)
    ensures
        views(r@) == stop_words(),
{
    let list: [&str; 29] = [
        "adverb",
        "verb",
        "verbs",
        "noun",
        "adjective",
        "article",
        "preposition",
        "vs",
        "and",
        "or",
        "the",
        "a",
        "an",
        "with",
        "for",
        "in",
        "on",
        "at",
        "of",
        "to",
        "с",
        "для",
        "и",
        "или",
        "по",
        "на",
        "в",
        "от",
        "из",
    ];
    let mut r: Vec<Vec<char>> = Vec::new();
    let mut i: usize = 0;
    while i < 29
        invariant
            i <= 29,
            list@.len() == 29,
            forall|j: int| 0 <= j < 29 ==> (#[trigger] list@[j])@ == stop_words()[j],
            views(r@) == stop_words().subrange(0, i as int),
        decreases 29 - i,
    {
        let w = chars_of(list[i]);
        let ghost before = views(r@);
        r.push(w);
        assert(views(r@) =~= before.push(stop_words()[i as int]));
        assert(stop_words().subrange(0, i + 1) =~= stop_words().subrange(0, i as int).push(
            stop_words()[i as int],
        ));
        i = i + 1;
    }
    assert(stop_words().subrange(0, 29) =~= stop_words());
    r
}

/// Whether a normalized word counts as significant: at least two
/// characters and not a stop word.
pub open spec fn is_significant(t: Seq<char>) -> bool {
    t.len() >= 2 && !stop_words().contains(t)
}

/// The normalized tokens of `pieces` that are significant, in order.
pub open spec fn significant_of(pieces: Seq<Seq<char>>) -> Seq<Seq<char>>
    decreases pieces.len(),
{
    if pieces.len() == 0 {
        Seq::empty()
    } else {
        let rest = significant_of(pieces.drop_last());
        let t = normalize_token_spec(pieces.last());
        if is_significant(t) {
            rest.push(t)
        } else {
            rest
        }
    }
}

/// Content words of `text`: the pieces between non-letter characters,
/// normalized (NFKD, alphanumeric only, lowercase), without stop words and
/// without tokens shorter than two characters.
pub open spec fn significant_words_spec(text: Seq<char>) -> Seq<Seq<char>> {
    significant_of(split_pieces(text, Sep::NonAlphabetic))
}

/// Content words of `text` as character vectors (see
/// `significant_words_spec`).
pub fn significant_word_chars(text: &Vec<char>) -> (r: Vec<Vec<char>>)
    ensures
        views(r@) == significant_words_spec(text@),
{
    let pieces = split_by(text, Sep::NonAlphabetic);
    let stops = stop_word_list();
    let mut r: Vec<Vec<char>> = Vec::new();
    let mut i: usize = 0;
    while i < pieces.len()
        invariant
            i <= pieces@.len(),
            views(stops@) == stop_words(),
            views(r@) == significant_of(views(pieces@).subrange(0, i as int)),
        decreases pieces@.len() - i,
    {
        let t = normalize_token(&pieces[i]);
        let ghost before = views(r@);
        proof {
            let pre = views(pieces@).subrange(0, i + 1);
            assert(pre.drop_last() =~= views(pieces@).subrange(0, i as int));
            assert(pre.last() == pieces@[i as int]@);
        }
        if t.len() >= 2 && !contains_word(&stops, &t) {
            let ghost tv = t@;
            r.push(t);
            assert(views(r@) =~= before.push(tv));
        }
        i = i + 1;
    }
    assert(views(pieces@).subrange(0, pieces@.len() as int) =~= views(pieces@));
    r
}

/// Content words of `text`: split on non-letter characters, each token
/// normalized (NFKD, alphanumeric only, lowercase), then stop words and
/// tokens shorter than two characters dropped.
pub fn significant_words(text: &str) -> (r: Vec<String>)
    ensures
        r.deep_view() == significant_words_spec(text@),
{
    let tv = chars_of(text);
    let w = significant_word_chars(&tv);
    strings_from(&w)
}

/// Whether some piece of `text` between non-letter characters normalizes
/// to a non-empty member of `words`.
pub open spec fn text_contains_any_word_spec(text: Seq<char>, words: Seq<Seq<char>>) -> bool {
    exists|i: int|
        0 <= i < split_pieces(text, Sep::NonAlphabetic).len() && {
            let t = normalize_token_spec(#[trigger] split_pieces(text, Sep::NonAlphabetic)[i]);
            t.len() > 0 && words.contains(t)
        }
}

/// Whether any of `words` appears in `text` as a whole normalized word,
/// never as a substring ("in" does not match "inside").
pub fn text_contains_any_word(text: &str, words: &[String]) -> (r: bool)
    ensures
        r == text_contains_any_word_spec(text@, words.deep_view()),
{
    let tv = chars_of(text);
    let wl = chars_of_all(words);
    let pieces = split_by(&tv, Sep::NonAlphabetic);
    let mut i: usize = 0;
    while i < pieces.len()
        invariant
            i <= pieces@.len(),
            views(pieces@) == split_pieces(text@, Sep::NonAlphabetic),
            views(wl@) == words.deep_view(),
            forall|j: int|
                0 <= j < i ==> {
                    let t = normalize_token_spec(#[trigger] split_pieces(text@, Sep::NonAlphabetic)[j]);
                    !(t.len() > 0 && words.deep_view().contains(t))
                },
        decreases pieces@.len() - i,
    {
        let t = normalize_token(&pieces[i]);
        assert(pieces@[i as int]@ == split_pieces(text@, Sep::NonAlphabetic)[i as int]);
        if t.len() > 0 && contains_word(&wl, &t) {
            return true;
        }
        i = i + 1;
    }
    false
}

/// The distinct significant words of a name.
pub open spec fn word_set(name: Seq<char>) -> Seq<Seq<char>> {
    dedup_seq(significant_words_spec(name))
}

/// Whether two distinct-word lists make their names duplicates: the second
/// is non-empty, they share a word, and either their Jaccard similarity
/// (shared words over all words) is at least 0.8 or one list is contained
/// in the other.
pub open spec fn words_duplicate(c: Seq<Seq<char>>, e: Seq<Seq<char>>) -> bool {
    let common = count_in(c, e);
    e.len() > 0 && common > 0 && (5 * common >= 4 * (c.len() + e.len() - common) || all_in(c, e)
        || all_in(e, c))
}

/// Index of the first name of `existing` from `i` on whose word list
/// duplicates `c`.
pub open spec fn first_duplicate_from(existing: Seq<Seq<char>>, c: Seq<Seq<char>>, i: int) -> Option<
    int,
>
    decreases existing.len() - i,
{
    if i < 0 || i >= existing.len() {
        None
    } else if words_duplicate(c, word_set(existing[i])) {
        Some(i)
    } else {
        first_duplicate_from(existing, c, i + 1)
    }
}

/// What `is_duplicate_name` returns: `None` when the candidate has no
/// significant words, else the index of the first existing name it
/// duplicates (see `words_duplicate`).
pub open spec fn is_duplicate_name_spec(existing: Seq<Seq<char>>, candidate: Seq<char>) -> Option<
    int,
> {
    let c = word_set(candidate);
    if c.len() == 0 {
        None
    } else {
        first_duplicate_from(existing, c, 0)
    }
}

/// Index of the first `existing` name whose words duplicate those of
/// `candidate` (see `is_duplicate_name_spec`), as character vectors.
pub fn duplicate_name_index(existing: &Vec<Vec<char>>, candidate: &Vec<char>) -> (r: Option<
    usize,
>)
    ensures
        r matches Some(i) ==> is_duplicate_name_spec(views(existing@), candidate@) == Some(i as int)
            && i < existing@.len(),
        r is None ==> is_duplicate_name_spec(views(existing@), candidate@) is None,
{
    let cw = significant_word_chars(candidate);
    let c = dedup_words(&cw);
    if c.len() == 0 {
        return None;
    }
    let ghost ex = views(existing@);
    let mut i: usize = 0;
    while i < existing.len()
        invariant
            i <= existing@.len(),
            ex == views(existing@),
            c.len() > 0,
            views(c@) == word_set(candidate@),
            first_duplicate_from(ex, views(c@), 0) == first_duplicate_from(ex, views(c@), i as int),
        decreases existing@.len() - i,
    {
        let ew = significant_word_chars(&existing[i]);
        let e = dedup_words(&ew);
        assert(views(e@) == word_set(ex[i as int]));
        if e.len() > 0 {
            let common = count_words_in(&c, &e);
            if common > 0 {
                let lhs: u128 = 5 * (common as u128);
                proof {
                    crate::words::lemma_count_in_le(views(c@), views(e@));
                }
                let rhs: u128 = 4 * ((c.len() as u128) + (e.len() as u128) - (common as u128));
                if lhs >= rhs || all_words_in(&c, &e) || all_words_in(&e, &c) {
                    return Some(i);
                }
            }
        }
        i = i + 1;
    }
    None
}

/// Fuzzy duplicate detection on name words. Returns the index of the first
/// `existing` name duplicating `candidate`: Jaccard similarity of the
/// significant-word sets of at least 0.8, or one set containing the other
/// (both non-empty). Names with no significant words never count as
/// duplicates.
pub fn is_duplicate_name(existing: &[String], candidate: &str) -> (r: Option<usize>)
    ensures
        r matches Some(i) ==> is_duplicate_name_spec(existing.deep_view(), candidate@) == Some(
            i as int,
        ),
        r is None ==> is_duplicate_name_spec(existing.deep_view(), candidate@) is None,
{
    let ev = chars_of_all(existing);
    let cv = chars_of(candidate);
    duplicate_name_index(&ev, &cv)
}

/// For a list without repeats, the number of its elements found in `e` is
/// the size of the common part of their sets.
proof fn lemma_count_in_common(c: Seq<Seq<char>>, e: Seq<Seq<char>>)
    requires
        forall|i: int, j: int| 0 <= i < j < c.len() ==> c[i] != c[j],
    ensures
        count_in(c, e) == c.to_set().intersect(e.to_set()).len(),
        c.to_set().intersect(e.to_set()).finite(),
    decreases c.len(),
{
    broadcast use vstd::set::group_set_axioms, vstd::seq_lib::seq_to_set_is_finite;

    if c.len() == 0 {
        assert(c.to_set().intersect(e.to_set()) =~= Set::<Seq<char>>::empty());
    } else {
        let p = c.drop_last();
        let x = c.last();
        lemma_count_in_common(p, e);
        assert(c.to_set() =~= p.to_set().insert(x)) by {
            assert forall|y: Seq<char>| c.to_set().contains(y) <==> p.to_set().insert(x).contains(y) by {
                if c.contains(y) && y != x {
                    let k = choose|k: int| 0 <= k < c.len() && c[k] == y;
                    assert(p[k] == y);
                }
                if p.contains(y) {
                    let k = choose|k: int| 0 <= k < p.len() && p[k] == y;
                    assert(c[k] == y);
                }
                assert(c[c.len() - 1] == x);
            }
        }
        assert(!p.to_set().contains(x)) by {
            if p.contains(x) {
                let k = choose|k: int| 0 <= k < p.len() && p[k] == x;
                assert(c[k] == c[c.len() - 1]);
            }
        }
        let common = p.to_set().intersect(e.to_set());
        if e.contains(x) {
            assert(c.to_set().intersect(e.to_set()) =~= common.insert(x));
        } else {
            assert(c.to_set().intersect(e.to_set()) =~= common);
        }
    }
}

/// Duplicate detection is symmetric: a name duplicates another exactly
/// when the other duplicates it.
pub proof fn lemma_duplicate_name_symmetric(a: Seq<char>, b: Seq<char>)
    ensures
        (is_duplicate_name_spec(seq![a], b) is Some) == (is_duplicate_name_spec(seq![b], a) is Some),
{
    let wa = word_set(a);
    let wb = word_set(b);
    lemma_dedup_seq_distinct(significant_words_spec(a));
    lemma_dedup_seq_distinct(significant_words_spec(b));
    lemma_count_in_common(wa, wb);
    lemma_count_in_common(wb, wa);
    assert(wa.to_set().intersect(wb.to_set()) =~= wb.to_set().intersect(wa.to_set()));
    assert(seq![a][0] == a);
    assert(seq![b][0] == b);
    assert(first_duplicate_from(seq![a], wb, 1) is None);
    assert(first_duplicate_from(seq![b], wa, 1) is None);
}

/// Against a list of names, the answer is the first name that the
/// candidate duplicates on its own, or none when it duplicates none.
pub proof fn lemma_duplicate_name_first_hit(existing: Seq<Seq<char>>, candidate: Seq<char>)
    ensures
        match is_duplicate_name_spec(existing, candidate) {
            Some(i) => 0 <= i < existing.len() && is_duplicate_name_spec(seq![existing[i]], candidate)
                is Some && forall|j: int|
                0 <= j < i ==> #[trigger] is_duplicate_name_spec(seq![existing[j]], candidate) is None,
            None => forall|j: int|
                0 <= j < existing.len() ==> #[trigger] is_duplicate_name_spec(seq![existing[j]], candidate)
                    is None,
        },
{
    let c = word_set(candidate);
    assert forall|j: int| 0 <= j < existing.len() implies (#[trigger] is_duplicate_name_spec(
        seq![existing[j]],
        candidate,
    ) is Some) == (c.len() > 0 && words_duplicate(c, word_set(existing[j]))) by {
        assert(seq![existing[j]][0] == existing[j]);
        assert(first_duplicate_from(seq![existing[j]], c, 1) is None);
    }
    if c.len() > 0 {
        lemma_first_duplicate_from(existing, c, 0);
    }
}

proof fn lemma_first_duplicate_from(existing: Seq<Seq<char>>, c: Seq<Seq<char>>, i: int)
    requires
        0 <= i,
    ensures
        match first_duplicate_from(existing, c, i) {
            Some(k) => i <= k < existing.len() && words_duplicate(c, word_set(existing[k])) && forall|j: int|
                i <= j < k ==> !words_duplicate(c, #[trigger] word_set(existing[j])),
            None => forall|j: int| i <= j < existing.len() ==> !words_duplicate(c, #[trigger] word_set(existing[j])),
        },
    decreases existing.len() - i,
{
    if i < existing.len() && !words_duplicate(c, word_set(existing[i])) {
        lemma_first_duplicate_from(existing, c, i + 1);
    }
}

/// With the sets `A` and `B` of significant words of a candidate and of an
/// existing name, the candidate duplicates that name exactly when both are
/// non-empty, they share a word, and either one set contains the other or
/// the shared words make at least four fifths of all words
/// (`5 |A ∩ B| >= 4 |A ∪ B|`).
pub proof fn lemma_single_duplicate_by_sets(candidate: Seq<char>, name: Seq<char>)
    ensures
        (is_duplicate_name_spec(seq![name], candidate) is Some) == similar_word_sets(
            significant_words_spec(candidate).to_set(),
            significant_words_spec(name).to_set(),
        ),
{
    broadcast use vstd::set::group_set_axioms, vstd::seq_lib::seq_to_set_is_finite;

    let sa = significant_words_spec(candidate);
    let sb = significant_words_spec(name);
    let a = sa.to_set();
    let b = sb.to_set();
    let c = word_set(candidate);
    let e = word_set(name);
    lemma_dedup_seq_distinct(sa);
    lemma_dedup_seq_distinct(sb);
    assert(c.to_set() =~= a) by {
        assert forall|x: Seq<char>| c.to_set().contains(x) <==> a.contains(x) by {
            lemma_dedup_seq_contains(sa, x);
        }
    }
    assert(e.to_set() =~= b) by {
        assert forall|x: Seq<char>| e.to_set().contains(x) <==> b.contains(x) by {
            lemma_dedup_seq_contains(sb, x);
        }
    }
    c.unique_seq_to_set();
    e.unique_seq_to_set();
    lemma_count_in_common(c, e);
    vstd::set_lib::lemma_set_intersect_union_lens(a, b);
    assert(a + b == a.union(b));
    assert(all_in(c, e) == a.subset_of(b)) by {
        if all_in(c, e) {
            assert forall|x: Seq<char>| a.contains(x) implies b.contains(x) by {
                let k = choose|k: int| 0 <= k < c.len() && c[k] == x;
            }
        }
        if a.subset_of(b) {
            assert forall|k: int| 0 <= k < c.len() implies e.contains(#[trigger] c[k]) by {
                assert(c.to_set().contains(c[k]));
            }
        }
    }
    assert(all_in(e, c) == b.subset_of(a)) by {
        if all_in(e, c) {
            assert forall|x: Seq<char>| b.contains(x) implies a.contains(x) by {
                let k = choose|k: int| 0 <= k < e.len() && e[k] == x;
            }
        }
        if b.subset_of(a) {
            assert forall|k: int| 0 <= k < e.len() implies c.contains(#[trigger] e[k]) by {
                assert(e.to_set().contains(e[k]));
            }
        }
    }
    assert(seq![name][0] == name);
    assert(first_duplicate_from(seq![name], c, 1) is None);
}

/// Whether two word sets make their names duplicates: both are
/// non-empty, they share a word, and either one contains the other or the
/// shared words make at least four fifths of all words.
pub open spec fn similar_word_sets(a: Set<Seq<char>>, b: Set<Seq<char>>) -> bool {
    a.len() > 0 && b.len() > 0 && a.intersect(b).len() > 0 && (a.subset_of(b) || b.subset_of(a) || 5
        * a.intersect(b).len() >= 4 * a.union(b).len())
}

/// Duplicate detection by word sets: the answer for a list of existing
/// names is the first name whose significant words and the candidate's
/// are both non-empty, share a word, and either nest or share at least
/// four fifths of all their words (`5 |A ∩ B| >= 4 |A ∪ B|`); none when no
/// name is such.
pub proof fn lemma_duplicate_name_by_word_sets(existing: Seq<Seq<char>>, candidate: Seq<char>)
    ensures
        match is_duplicate_name_spec(existing, candidate) {
            Some(i) => 0 <= i < existing.len() && similar_word_sets(
                significant_words_spec(candidate).to_set(),
                significant_words_spec(existing[i]).to_set(),
            ) && forall|j: int|
                0 <= j < i ==> !similar_word_sets(
                    significant_words_spec(candidate).to_set(),
                    significant_words_spec(#[trigger] existing[j]).to_set(),
                ),
            None => forall|j: int|
                0 <= j < existing.len() ==> !similar_word_sets(
                    significant_words_spec(candidate).to_set(),
                    significant_words_spec(#[trigger] existing[j]).to_set(),
                ),
        },
{
    lemma_duplicate_name_first_hit(existing, candidate);
    let a = significant_words_spec(candidate).to_set();
    match is_duplicate_name_spec(existing, candidate) {
        Some(i) => {
            lemma_single_duplicate_by_sets(candidate, existing[i]);
            assert forall|j: int| 0 <= j < i implies !similar_word_sets(
                a,
                significant_words_spec(#[trigger] existing[j]).to_set(),
            ) by {
                lemma_single_duplicate_by_sets(candidate, existing[j]);
                assert(is_duplicate_name_spec(seq![existing[j]], candidate) is None);
            }
        },
        None => {
            assert forall|j: int| 0 <= j < existing.len() implies !similar_word_sets(
                a,
                significant_words_spec(#[trigger] existing[j]).to_set(),
            ) by {
                lemma_single_duplicate_by_sets(candidate, existing[j]);
                assert(is_duplicate_name_spec(seq![existing[j]], candidate) is None);
            }
        },
    }
}

/// Whether the double with bit pattern `bits` is a NaN: all exponent bits
/// set and a non-zero fraction.
pub open spec fn is_nan_bits(bits: u64) -> bool {
    (bits & 0x7FF0_0000_0000_0000u64) == 0x7FF0_0000_0000_0000u64 && (bits
        & 0x000F_FFFF_FFFF_FFFFu64) != 0
}

/// Whether the double with bit pattern `bits` is zero (of either sign).
pub open spec fn is_zero_bits(bits: u64) -> bool {
    (bits & 0x7FFF_FFFF_FFFF_FFFFu64) == 0
}

/// A key whose unsigned order is the order of the doubles (negative ones
/// reversed below the positive ones), for patterns that are not NaN.
pub open spec fn order_key(bits: u64) -> int {
    if bits >= 0x8000_0000_0000_0000u64 {
        u64::MAX - bits
    } else {
        bits + 0x8000_0000_0000_0000u64
    }
}

/// `a > b` on the doubles with bit patterns `a` and `b`: never with a NaN,
/// and never between two zeros.
pub open spec fn double_greater(a: u64, b: u64) -> bool {
    &&& !is_nan_bits(a)
    &&& !is_nan_bits(b)
    &&& !(is_zero_bits(a) && is_zero_bits(b))
    &&& order_key(a) > order_key(b)
}

/// Compares two scores given as bit patterns of doubles (see
/// `double_greater`).
pub fn score_greater(a: u64, b: u64) -> (r: bool)
    ensures
        r == double_greater(a, b),
{
    let a_nan = (a & 0x7FF0_0000_0000_0000u64) == 0x7FF0_0000_0000_0000u64 && (a
        & 0x000F_FFFF_FFFF_FFFFu64) != 0;
    let b_nan = (b & 0x7FF0_0000_0000_0000u64) == 0x7FF0_0000_0000_0000u64 && (b
        & 0x000F_FFFF_FFFF_FFFFu64) != 0;
    if a_nan || b_nan {
        return false;
    }
    if (a & 0x7FFF_FFFF_FFFF_FFFFu64) == 0 && (b & 0x7FFF_FFFF_FFFF_FFFFu64) == 0 {
        return false;
    }
    let ka: u64 = if a >= 0x8000_0000_0000_0000u64 {
        u64::MAX - a
    } else {
        a + 0x8000_0000_0000_0000u64
    };
    let kb: u64 = if b >= 0x8000_0000_0000_0000u64 {
        u64::MAX - b
    } else {
        b + 0x8000_0000_0000_0000u64
    };
    ka > kb
}

/// Whether `new` wins over `old` in a duplicate group: more practice, or
/// as much practice and a higher score.
pub open spec fn replaces(new: LearningItem, old: LearningItem) -> bool {
    new.practice_count > old.practice_count || (new.practice_count == old.practice_count
        && double_greater(new.score_bits, old.score_bits))
}

/// The names of learning items.
pub open spec fn item_names(items: Seq<LearningItem>) -> Seq<Seq<char>> {
    Seq::new(items.len(), |i: int| items[i].name@)
}

/// What `dedupe` returns: going through the items in order, an item whose
/// name duplicates a kept one (the first such) takes its place when it
/// `replaces` it, the other of the two being removed.
pub open spec fn dedupe_items_spec(items: Seq<LearningItem>) -> (Seq<LearningItem>, Seq<
    LearningItem,
>)
    decreases items.len(),
{
    if items.len() == 0 {
        (Seq::empty(), Seq::empty())
    } else {
        let (kept, removed) = dedupe_items_spec(items.drop_last());
        let item = items.last();
        match is_duplicate_name_spec(item_names(kept), item.name@) {
            Some(pos) => if replaces(item, kept[pos]) {
                (kept.update(pos, item), removed.push(kept[pos]))
            } else {
                (kept, removed.push(item))
            },
            None => (kept.push(item), removed),
        }
    }
}

/// Splits `items` into (kept, removed), merging fuzzy name duplicates
/// (the criterion of `is_duplicate_name`). From each duplicate group the
/// item with the highest practice count is kept (ties: higher score, then
/// earliest in the input), so the result is deterministic.
pub fn dedupe(items: Vec<LearningItem>) -> (r: (Vec<LearningItem>, Vec<LearningItem>))
    ensures
        (r.0@, r.1@) == dedupe_items_spec(items@),
{
    let ghost orig = items@;
    let n = items.len();
    let mut rest = items;
    let mut kept: Vec<LearningItem> = Vec::new();
    let mut removed: Vec<LearningItem> = Vec::new();
    let mut kept_names: Vec<Vec<char>> = Vec::new();
    let mut k: usize = 0;
    while rest.len() > 0
        invariant
            n == orig.len(),
            k + rest@.len() == orig.len(),
            rest@ == orig.subrange(k as int, orig.len() as int),
            (kept@, removed@) == dedupe_items_spec(orig.subrange(0, k as int)),
            views(kept_names@) == item_names(kept@),
        decreases rest@.len(),
    {
        let item = rest.remove(0);
        proof {
            let pre = orig.subrange(0, k + 1);
            assert(pre.drop_last() =~= orig.subrange(0, k as int));
            assert(pre.last() == item);
        }
        let name = chars_of(item.name.as_str());
        let dup = duplicate_name_index(&kept_names, &name);
        match dup {
            Some(pos) => {
                let replace = item.practice_count > kept[pos].practice_count || (item.practice_count
                    == kept[pos].practice_count && score_greater(
                    item.score_bits,
                    kept[pos].score_bits,
                ));
                if replace {
                    let ghost before_kept = kept@;
                    let ghost before_names = kept_names@;
                    let ghost new_name = name@;
                    let old = kept.remove(pos);
                    kept.insert(pos, item);
                    kept_names.remove(pos);
                    kept_names.insert(pos, name);
                    removed.push(old);
                    assert(kept@ =~= before_kept.update(pos as int, item));
                    assert(kept_names@ =~= before_names.update(pos as int, kept_names@[pos as int]));
                    assert(views(kept_names@) =~= views(before_names).update(pos as int, new_name));
                    assert(item_names(kept@) =~= item_names(before_kept).update(pos as int, item.name@));
                } else {
                    removed.push(item);
                }
            },
            None => {
                let ghost before_names = views(kept_names@);
                let ghost before_kept = kept@;
                kept_names.push(name);
                kept.push(item);
                assert(views(kept_names@) =~= item_names(kept@)) by {
                    assert(item_names(kept@) =~= item_names(before_kept).push(item.name@));
                    assert(views(kept_names@) =~= before_names.push(item.name@));
                }
            },
        }
        k = k + 1;
        assert(rest@ =~= orig.subrange(k as int, orig.len() as int));
    }
    assert(orig.subrange(0, k as int) =~= orig);
    (kept, removed)
}

proof fn lemma_first_duplicate_in_range(existing: Seq<Seq<char>>, c: Seq<Seq<char>>, i: int)
    ensures
        first_duplicate_from(existing, c, i) matches Some(j) ==> i <= j < existing.len(),
    decreases existing.len() - i,
{
    if 0 <= i < existing.len() && !words_duplicate(c, word_set(existing[i])) {
        lemma_first_duplicate_in_range(existing, c, i + 1);
    }
}

/// The index that `is_duplicate_name_spec` gives is an index of `existing`.
pub proof fn lemma_duplicate_index_in_range(existing: Seq<Seq<char>>, candidate: Seq<char>)
    ensures
        is_duplicate_name_spec(existing, candidate) matches Some(j) ==> 0 <= j < existing.len(),
{
    lemma_first_duplicate_in_range(existing, word_set(candidate), 0);
}

/// Deduplication neither loses nor invents an item: the kept and the
/// removed items together are the input items, each as often as it occurs
/// there.
pub proof fn lemma_dedupe_items_keeps_every_item(items: Seq<LearningItem>)
    ensures
        (dedupe_items_spec(items).0 + dedupe_items_spec(items).1).to_multiset()
            =~= items.to_multiset(),
    decreases items.len(),
{
    broadcast use vstd::seq_lib::group_to_multiset_ensures;
    broadcast use vstd::seq_lib::lemma_multiset_commutative;
    broadcast use vstd::multiset::group_multiset_axioms;

    if items.len() > 0 {
        let prev = items.drop_last();
        let item = items.last();
        lemma_dedupe_items_keeps_every_item(prev);
        assert(items =~= prev.push(item));
        let (kept, removed) = dedupe_items_spec(prev);
        match is_duplicate_name_spec(item_names(kept), item.name@) {
            Some(pos) => {
                lemma_duplicate_index_in_range(item_names(kept), item.name@);
                if replaces(item, kept[pos]) {
                    assert(kept.to_multiset().count(kept[pos]) > 0);
                }
            },
            None => {},
        }
    }
}

} // verus!

//! Vocabulary domain model: lemmas (dictionary headwords) and their
//! inflected forms, described with Universal Dependencies morphology, and
//! the selection of warm-up and cloze cards for a session.
use vstd::prelude::*;

use crate::curriculum::{eq_ignore_ascii_case, eq_ignore_ascii_case_spec};
use crate::learning_items::{
    double_greater, is_nan_bits, score_greater, nonempty_pieces, significant_word_chars, significant_words_spec, slugify, slugify_spec,
    text_contains_any_word_spec,
};
use crate::llm::parse::{RawClozeItem, RawVocabularyItem, RawWarmupItem};
use crate::session::models::{
    ClozeItem, ClozeItemView, Exercise, GrammarError, SentenceAnalysis, VocabularyUse, WarmupItem,
    WarmupItemView, WarmupKind, opt_seq,
};
use crate::text::{
    all_ascii, first_non_ws, last_non_ws_end, lemma_first_non_ws_bounds, lemma_last_non_ws_bounds,
    lemma_trim_spec_keeps, lemma_trim_spec_trimmed, white_space,
    chars_of, copy_str, is_alphanumeric, lower_text, nfkc, push_str, seq_eq, str_eq, string_from_chars, to_lowercase,
    to_nfkc, trim_chars, trim_spec,
};
use crate::words::{
    all_in, all_words_in, count_in, count_words_in, dedup_seq, dedup_words, lemma_count_in_le, Sep,
    contains_word, normalize_token, split_by, split_pieces, views,
};

verus! {

/// Freshly extracted, never practiced.
pub const STATUS_NEW: i32 = 0;

/// Practiced but not yet mastered.
pub const STATUS_PRACTICING: i32 = 1;

/// Mastered.
pub const STATUS_KNOWN: i32 = 2;

/// A dictionary headword of the learner's vocabulary.
#[derive(Debug, Clone, Default, PartialEq)]
pub struct Lemma {
    /// Deterministic id: `"{target_lang}-{slug(lemma)}"`.
    pub id: String,
    pub lemma: String,
    /// Universal Dependencies part-of-speech tag ("VERB", "ADJ", ...).
    pub pos: String,
    pub target_lang: String,
    pub native_lang: String,
    /// Main translation; may be empty until the pipeline fills it.
    pub translation: String,
    /// Status derived from mastery (`STATUS_NEW`, `STATUS_PRACTICING`,
    /// `STATUS_KNOWN`).
    pub status: i32,
    /// The mastery score (0 to 100) as the bit pattern of an IEEE-754
    /// double; the library carries it without reading it.
    pub mastery_bits: u64,
    /// RFC3339 timestamp of the last session that touched this lemma.
    pub last_seen: Option<String>,
    pub practice_count: i32,
    pub correct_uses: i32,
    pub incorrect_uses: i32,
    /// Approximate CEFR level of the lemma ("A1"–"C2").
    pub cefr_level: Option<String>,
    /// Where `cefr_level` came from: "topic", "llm", "manual" or "list".
    pub cefr_source: Option<String>,
    pub updated_at: Option<String>,
    pub deleted_at: Option<String>,
}

/// An inflected form of a lemma.
#[derive(Debug, Clone, Default, PartialEq)]
pub struct Form {
    /// Deterministic id: `"{lemma_id}--{slug(surface)}"`.
    pub id: String,
    pub lemma_id: String,
    pub surface: String,
    /// UD features as returned by the model ("Mood=Ind|Number=Sing|...").
    pub feats: String,
    /// Normalized form of `feats`, used for deduplication.
    pub feats_key: String,
    pub status: i32,
    /// The mastery score as the bit pattern of an IEEE-754 double.
    pub mastery_bits: u64,
    pub correct: i32,
    pub incorrect: i32,
    pub last_seen: Option<String>,
    pub updated_at: Option<String>,
    pub deleted_at: Option<String>,
}

/// `s` without every leading and trailing `-`.
pub open spec fn trim_dashes(s: Seq<char>) -> Seq<char>
    decreases s.len(),
{
    if s.len() > 0 && s[0] == '-' {
        trim_dashes(s.drop_first())
    } else if s.len() > 0 && s.last() == '-' {
        trim_dashes(s.drop_last())
    } else {
        s
    }
}

pub(crate) fn trim_dashes_exec(s: &Vec<char>) -> (r: String)
    ensures
        r@ == trim_dashes(s@),
{
    let mut start: usize = 0;
    let mut end: usize = s.len();
    assert(s@.subrange(0, s@.len() as int) =~= s@);
    while start < end && (s[start] == '-' || s[end - 1] == '-')
        invariant
            start <= end <= s@.len(),
            trim_dashes(s@) == trim_dashes(s@.subrange(start as int, end as int)),
        decreases end - start,
    {
        let ghost cur = s@.subrange(start as int, end as int);
        if s[start] == '-' {
            assert(cur.drop_first() =~= s@.subrange(start + 1, end as int));
            start = start + 1;
        } else {
            assert(cur.drop_last() =~= s@.subrange(start as int, end - 1));
            end = end - 1;
        }
    }
    crate::text::substring(s, start, end)
}

impl Lemma {
    /// The id of a lemma: `"{target_lang}-{slug(lemma)}"` with leading and
    /// trailing dashes removed.
    pub fn slug_id(lemma: &str, target_lang: &str) -> (r: String)
        ensures
            r@ == trim_dashes(target_lang@ + "-"@ + slugify_spec(lemma@)),
    {
        let mut base = copy_str(target_lang);
        push_str(&mut base, "-");
        let slug = slugify(lemma);
        push_str(&mut base, slug.as_str());
        let bv = chars_of(base.as_str());
        trim_dashes_exec(&bv)
    }
}

impl Form {
    /// The id of a form: `"{lemma_id}--{slug(surface)}"`.
    pub fn id(lemma_id: &str, surface: &str) -> (r: String)
        ensures
            r@ == lemma_id@ + "--"@ + slugify_spec(surface@),
    {
        let mut base = copy_str(lemma_id);
        push_str(&mut base, "--");
        let slug = slugify(surface);
        push_str(&mut base, slug.as_str());
        base
    }
}

/// The closed set of function-word part-of-speech tags.
pub open spec fn function_pos() -> Seq<Seq<char>> {
    seq!["ADP"@, "AUX"@, "DET"@, "INTJ"@, "PART"@, "PRON"@, "PUNCT"@, "SYM"@, "X"@]
}

/// Whether a lemma with this POS tag is a content-word candidate: the
/// trimmed tag is empty, or equals no function-word tag ignoring ASCII
/// case.
pub open spec fn is_content_pos_spec(pos: Seq<char>) -> bool {
    let t = trim_spec(pos);
    t.len() == 0 || forall|i: int|
        0 <= i < function_pos().len() ==> !eq_ignore_ascii_case_spec(
            #[trigger] function_pos()[i],
            t,
        )
}

/// Whether a lemma with this POS tag is a content-word candidate for forced
/// practice. Case-insensitive; empty or unrecognized tags are accepted so
/// incomplete metadata never hides a lemma. Conjunctions count as content.
pub fn is_content_pos(pos: &str) -> (r: bool)
    ensures
        r == is_content_pos_spec(pos@),
{
    let pv = chars_of(pos);
    let t = trim_chars(&pv);
    if t.len() == 0 {
        return true;
    }
    let tags: [&str; 9] = ["ADP", "AUX", "DET", "INTJ", "PART", "PRON", "PUNCT", "SYM", "X"];
    let mut i: usize = 0;
    while i < 9
        invariant
            i <= 9,
            tags@.len() == 9,
            t@ == trim_spec(pos@),
            t@.len() > 0,
            forall|j: int| 0 <= j < 9 ==> (#[trigger] tags@[j])@ == function_pos()[j],
            forall|j: int|
                0 <= j < i ==> !eq_ignore_ascii_case_spec(#[trigger] function_pos()[j], t@),
        decreases 9 - i,
    {
        let tag = chars_of(tags[i]);
        assert(tags@[i as int]@ == function_pos()[i as int]);
        if eq_ignore_ascii_case(&tag, &t) {
            return false;
        }
        i = i + 1;
    }
    true
}

/// The canonical short form of a full lowercased `key=value` UD pair, or
/// the input unchanged. Only complete pairs are rewritten, never bare keys
/// or values.
pub open spec fn canonical_feat(s: Seq<char>) -> Seq<char> {
    if s == "tense=present"@ {
        "tense=pres"@
    } else if s == "tense=preterite"@ {
        "tense=past"@
    } else if s == "mood=indicative"@ {
        "mood=ind"@
    } else if s == "number=singular"@ {
        "number=sing"@
    } else if s == "number=plural"@ {
        "number=plur"@
    } else if s == "gender=masculine"@ {
        "gender=masc"@
    } else if s == "gender=feminine"@ {
        "gender=fem"@
    } else if s == "person=first"@ {
        "person=1"@
    } else if s == "person=second"@ {
        "person=2"@
    } else if s == "person=third"@ {
        "person=3"@
    } else if s == "verbform=finite"@ {
        "verbform=fin"@
    } else {
        s
    }
}

fn canonicalize_feat(segment: &str) -> (r: &str)
    ensures
        r@ == canonical_feat(segment@),
{
    if str_eq(segment, "tense=present") {
        "tense=pres"
    } else if str_eq(segment, "tense=preterite") {
        "tense=past"
    } else if str_eq(segment, "mood=indicative") {
        "mood=ind"
    } else if str_eq(segment, "number=singular") {
        "number=sing"
    } else if str_eq(segment, "number=plural") {
        "number=plur"
    } else if str_eq(segment, "gender=masculine") {
        "gender=masc"
    } else if str_eq(segment, "gender=feminine") {
        "gender=fem"
    } else if str_eq(segment, "person=first") {
        "person=1"
    } else if str_eq(segment, "person=second") {
        "person=2"
    } else if str_eq(segment, "person=third") {
        "person=3"
    } else if str_eq(segment, "verbform=finite") {
        "verbform=fin"
    } else {
        segment
    }
}

/// The canonical segments of the pieces of a feats string: each piece
/// trimmed, empty ones dropped, the rest lowercased and canonicalized.
pub open spec fn feat_segments_of(pieces: Seq<Seq<char>>) -> Seq<Seq<char>>
    decreases pieces.len(),
{
    if pieces.len() == 0 {
        Seq::empty()
    } else {
        let rest = feat_segments_of(pieces.drop_last());
        let t = trim_spec(pieces.last());
        if t.len() > 0 {
            rest.push(canonical_feat(lower_text(t)))
        } else {
            rest
        }
    }
}

/// The canonical segments of a feats string, split at `|`.
pub open spec fn feat_segments(feats: Seq<char>) -> Seq<Seq<char>> {
    feat_segments_of(split_pieces(feats, Sep::Char('|')))
}

/// Strict lexicographic order on strings, by code point (the order in which
/// `sort` arranges Rust strings).
pub open spec fn lex_lt(a: Seq<char>, b: Seq<char>) -> bool
    decreases a.len(),
{
    if a.len() == 0 {
        b.len() > 0
    } else if b.len() == 0 {
        false
    } else if a[0] != b[0] {
        a[0] < b[0]
    } else {
        lex_lt(a.drop_first(), b.drop_first())
    }
}

/// The order is asymmetric (hence irreflexive).
pub proof fn lemma_lex_asym(a: Seq<char>, b: Seq<char>)
    ensures
        lex_lt(a, b) ==> !lex_lt(b, a),
    decreases a.len(),
{
    if a.len() > 0 && b.len() > 0 && a[0] == b[0] {
        lemma_lex_asym(a.drop_first(), b.drop_first());
    }
}

/// The order is transitive.
pub proof fn lemma_lex_trans(a: Seq<char>, b: Seq<char>, c: Seq<char>)
    ensures
        lex_lt(a, b) && lex_lt(b, c) ==> lex_lt(a, c),
    decreases a.len(),
{
    if a.len() > 0 && b.len() > 0 && c.len() > 0 && a[0] == b[0] && b[0] == c[0] {
        lemma_lex_trans(a.drop_first(), b.drop_first(), c.drop_first());
    }
}

/// The order is total on distinct strings.
pub proof fn lemma_lex_total(a: Seq<char>, b: Seq<char>)
    ensures
        a != b ==> lex_lt(a, b) || lex_lt(b, a),
    decreases a.len(),
{
    if a.len() > 0 && b.len() > 0 && a[0] == b[0] {
        lemma_lex_total(a.drop_first(), b.drop_first());
        if a.drop_first() == b.drop_first() {
            assert(a =~= b) by {
                assert forall|i: int| 0 <= i < a.len() implies a[i] == b[i] by {
                    if i > 0 {
                        assert(a[i] == a.drop_first()[i - 1]);
                        assert(b[i] == b.drop_first()[i - 1]);
                    }
                }
            }
        }
    }
    if a.len() == 0 && b.len() == 0 {
        assert(a =~= b);
    }
}

/// The elements of `s.push(x)` are those of `s` and `x`.
pub proof fn lemma_push_to_set(s: Seq<Seq<char>>, x: Seq<char>)
    ensures
        s.push(x).to_set() == s.to_set().insert(x),
{
    assert forall|z: Seq<char>| s.push(x).to_set().contains(z) implies s.to_set().insert(x).contains(
        z,
    ) by {
        let k = choose|k: int| 0 <= k < s.push(x).len() && s.push(x)[k] == z;
        if k < s.len() {
            assert(s[k] == z);
        }
    }
    assert forall|z: Seq<char>| s.to_set().insert(x).contains(z) implies s.push(x).to_set().contains(
        z,
    ) by {
        if z == x {
            assert(s.push(x)[s.len() as int] == z);
        } else {
            let k = choose|k: int| 0 <= k < s.len() && s[k] == z;
            assert(s.push(x)[k] == z);
        }
    }
    assert(s.push(x).to_set() =~= s.to_set().insert(x));
}

/// Whether `s` is in strictly increasing lexicographic order.
pub open spec fn strictly_sorted(s: Seq<Seq<char>>) -> bool {
    forall|i: int, j: int| 0 <= i < j < s.len() ==> lex_lt(#[trigger] s[i], #[trigger] s[j])
}

/// Two strictly sorted lists with the same elements are equal.
pub proof fn lemma_sorted_unique(a: Seq<Seq<char>>, b: Seq<Seq<char>>)
    requires
        strictly_sorted(a),
        strictly_sorted(b),
        a.to_set() == b.to_set(),
    ensures
        a == b,
    decreases a.len(),
{
    if a.len() == 0 {
        if b.len() > 0 {
            assert(b.to_set().contains(b[0]));
            assert(!a.to_set().contains(b[0]));
        }
        assert(a =~= b);
    } else if b.len() == 0 {
        assert(a.to_set().contains(a[0]));
        assert(!b.to_set().contains(a[0]));
    } else {
        let x = a[0];
        let y = b[0];
        assert(a.to_set().contains(x));
        assert(b.to_set().contains(y));
        assert(b.contains(x));
        assert(a.contains(y));
        if x != y {
            let i = choose|i: int| 0 <= i < b.len() && b[i] == x;
            let j = choose|j: int| 0 <= j < a.len() && a[j] == y;
            assert(i > 0);
            assert(j > 0);
            assert(lex_lt(y, x));
            assert(lex_lt(x, y));
            lemma_lex_asym(x, y);
        }
        let at = a.drop_first();
        let bt = b.drop_first();
        assert forall|k: int, l: int| 0 <= k < l < at.len() implies lex_lt(#[trigger] at[k], #[trigger] at[l]) by {
            assert(at[k] == a[k + 1] && at[l] == a[l + 1]);
        }
        assert forall|k: int, l: int| 0 <= k < l < bt.len() implies lex_lt(#[trigger] bt[k], #[trigger] bt[l]) by {
            assert(bt[k] == b[k + 1] && bt[l] == b[l + 1]);
        }
        assert(at.to_set() =~= bt.to_set()) by {
            assert forall|z: Seq<char>| at.to_set().contains(z) implies bt.to_set().contains(z) by {
                let k = choose|k: int| 0 <= k < at.len() && at[k] == z;
                assert(a[k + 1] == z);
                assert(a.to_set().contains(z));
                assert(b.contains(z));
                let l = choose|l: int| 0 <= l < b.len() && b[l] == z;
                if l == 0 {
                    assert(lex_lt(a[0], a[k + 1]));
                    lemma_lex_asym(z, z);
                }
                assert(bt[l - 1] == z);
            }
            assert forall|z: Seq<char>| bt.to_set().contains(z) implies at.to_set().contains(z) by {
                let k = choose|k: int| 0 <= k < bt.len() && bt[k] == z;
                assert(b[k + 1] == z);
                assert(b.to_set().contains(z));
                assert(a.contains(z));
                let l = choose|l: int| 0 <= l < a.len() && a[l] == z;
                if l == 0 {
                    assert(lex_lt(b[0], b[k + 1]));
                    lemma_lex_asym(z, z);
                }
                assert(at[l - 1] == z);
            }
        }
        lemma_sorted_unique(at, bt);
        assert(a =~= b) by {
            assert forall|k: int| 0 <= k < a.len() implies a[k] == b[k] by {
                if k > 0 {
                    assert(a[k] == at[k - 1]);
                    assert(b[k] == bt[k - 1]);
                }
            }
        }
    }
}

/// The strictly sorted list holding exactly the elements of `s`.
pub open spec fn sorted_elements(s: Set<Seq<char>>) -> Seq<Seq<char>> {
    choose|r: Seq<Seq<char>>| strictly_sorted(r) && r.to_set() == s
}

/// The strings of `parts` joined with `|`.
pub open spec fn join_bar(parts: Seq<Seq<char>>) -> Seq<char>
    decreases parts.len(),
{
    if parts.len() == 0 {
        Seq::empty()
    } else if parts.len() == 1 {
        parts[0]
    } else {
        join_bar(parts.drop_last()) + seq!['|'] + parts.last()
    }
}

/// What `normalize_feats_key` returns: the distinct canonical segments of
/// the feats string, sorted, joined with `|`.
pub open spec fn normalize_feats_key_spec(feats: Seq<char>) -> Seq<char> {
    join_bar(sorted_elements(feat_segments(feats).to_set()))
}

/// Two feats strings with the same canonical segments, in whatever order
/// and with whatever repetitions, have the same key.
pub proof fn lemma_feats_key_order_insensitive(a: Seq<char>, b: Seq<char>)
    requires
        feat_segments(a).to_set() == feat_segments(b).to_set(),
    ensures
        normalize_feats_key_spec(a) == normalize_feats_key_spec(b),
{
}

/// Whether `a` sorts strictly before `b`.
pub fn lex_less(a: &Vec<char>, b: &Vec<char>) -> (r: bool)
    ensures
        r == lex_lt(a@, b@),
{
    let mut i: usize = 0;
    assert(a@.skip(0) =~= a@);
    assert(b@.skip(0) =~= b@);
    while i < a.len() && i < b.len() && a[i] == b[i]
        invariant
            i <= a@.len(),
            i <= b@.len(),
            lex_lt(a@, b@) == lex_lt(a@.skip(i as int), b@.skip(i as int)),
        decreases a@.len() - i,
    {
        assert(a@.skip(i as int).drop_first() =~= a@.skip(i + 1));
        assert(b@.skip(i as int).drop_first() =~= b@.skip(i + 1));
        i = i + 1;
    }
    if i == a.len() {
        i < b.len()
    } else if i == b.len() {
        false
    } else {
        assert(a@.skip(i as int)[0] == a@[i as int]);
        assert(b@.skip(i as int)[0] == b@[i as int]);
        a[i] < b[i]
    }
}

/// Inserts `x` into the strictly sorted list `parts` unless it is already
/// there.
fn insert_sorted(parts: &mut Vec<Vec<char>>, x: Vec<char>)
    requires
        strictly_sorted(views(old(parts)@)),
    ensures
        strictly_sorted(views(final(parts)@)),
        views(final(parts)@).to_set() == views(old(parts)@).to_set().insert(x@),
{
    if contains_word(parts, &x) {
        assert(views(parts@).to_set() =~= views(parts@).to_set().insert(x@));
        return;
    }
    let ghost old_v = views(parts@);
    let mut p: usize = 0;
    while p < parts.len() && !lex_less(&x, &parts[p])
        invariant
            p <= parts@.len(),
            views(parts@) == old_v,
            !old_v.contains(x@),
            forall|j: int| 0 <= j < p ==> !lex_lt(x@, #[trigger] old_v[j]),
        decreases parts@.len() - p,
    {
        p = p + 1;
    }
    let ghost xv = x@;
    parts.insert(p, x);
    let ghost new_v = views(parts@);
    assert(new_v =~= old_v.insert(p as int, xv));
    assert forall|i: int, j: int| 0 <= i < j < new_v.len() implies lex_lt(
        #[trigger] new_v[i],
        #[trigger] new_v[j],
    ) by {
        if j < p {
            assert(new_v[i] == old_v[i] && new_v[j] == old_v[j]);
        } else if j == p {
            assert(new_v[i] == old_v[i]);
            assert(old_v[i] != xv);
            lemma_lex_total(old_v[i], xv);
        } else if i == p {
            assert(new_v[j] == old_v[j - 1]);
            assert(lex_lt(xv, old_v[p as int]));
            if j - 1 > p {
                lemma_lex_trans(xv, old_v[p as int], old_v[j - 1]);
            }
        } else if i < p {
            assert(new_v[i] == old_v[i] && new_v[j] == old_v[j - 1]);
        } else {
            assert(new_v[i] == old_v[i - 1] && new_v[j] == old_v[j - 1]);
        }
    }
    assert(new_v.to_set() =~= old_v.to_set().insert(xv)) by {
        assert forall|z: Seq<char>| new_v.to_set().contains(z) implies old_v.to_set().insert(
            xv,
        ).contains(z) by {
            let k = choose|k: int| 0 <= k < new_v.len() && new_v[k] == z;
            if k < p {
                assert(old_v[k] == z);
            } else if k > p {
                assert(old_v[k - 1] == z);
            }
        }
        assert forall|z: Seq<char>| old_v.to_set().insert(xv).contains(z) implies new_v.to_set().contains(
            z,
        ) by {
            if z == xv {
                assert(new_v[p as int] == z);
            } else {
                let k = choose|k: int| 0 <= k < old_v.len() && old_v[k] == z;
                if k < p {
                    assert(new_v[k] == z);
                } else {
                    assert(new_v[k + 1] == z);
                }
            }
        }
    }
}

/// Whether `x` has the shape of a segment of a feats key of ASCII text:
/// non-empty ASCII without upper-case letters and without `|`, neither
/// starting nor ending with white space.
pub open spec fn is_feat_segment(x: Seq<char>) -> bool {
    &&& x.len() > 0
    &&& all_ascii(x)
    &&& forall|j: int| 0 <= j < x.len() ==> !('A' <= #[trigger] x[j] <= 'Z') && x[j] != '|'
    &&& !white_space(x[0])
    &&& !white_space(x.last())
}

proof fn lemma_canonical_feat_fixed(y: Seq<char>)
    ensures
        canonical_feat(canonical_feat(y)) == canonical_feat(y),
        is_feat_segment(y) ==> is_feat_segment(canonical_feat(y)),
{
    reveal_strlit("tense=present");
    reveal_strlit("tense=pres");
    reveal_strlit("tense=preterite");
    reveal_strlit("tense=past");
    reveal_strlit("mood=indicative");
    reveal_strlit("mood=ind");
    reveal_strlit("number=singular");
    reveal_strlit("number=sing");
    reveal_strlit("number=plural");
    reveal_strlit("number=plur");
    reveal_strlit("gender=masculine");
    reveal_strlit("gender=masc");
    reveal_strlit("gender=feminine");
    reveal_strlit("gender=fem");
    reveal_strlit("person=first");
    reveal_strlit("person=1");
    reveal_strlit("person=second");
    reveal_strlit("person=2");
    reveal_strlit("person=third");
    reveal_strlit("person=3");
    reveal_strlit("verbform=finite");
    reveal_strlit("verbform=fin");
    assert("verbform=fin"@[0] != "person=first"@[0]);
    assert("verbform=fin"@[0] != "person=third"@[0]);
    let c = canonical_feat(y);
    if c != y {
        assert(all_ascii(c)) by {
            assert forall|j: int| 0 <= j < c.len() implies (#[trigger] c[j] as u32) < 128 by {}
        }
    }
}

/// A piece of a split never holds the separator, and all its characters
/// come from the split text.
proof fn lemma_split_pieces_chars(s: Seq<char>, d: char)
    ensures
        forall|i: int, j: int|
            0 <= i < split_pieces(s, Sep::Char(d)).len() && 0 <= j < split_pieces(s, Sep::Char(d))[i].len()
                ==> #[trigger] split_pieces(s, Sep::Char(d))[i][j] != d && s.contains(
                split_pieces(s, Sep::Char(d))[i][j],
            ),
    decreases s.len(),
{
    if s.len() > 0 {
        let prev = s.drop_last();
        lemma_split_pieces_chars(prev, d);
        crate::words::lemma_split_pieces_nonempty(prev, Sep::Char(d));
        let p = split_pieces(prev, Sep::Char(d));
        let q = split_pieces(s, Sep::Char(d));
        assert forall|i: int, j: int| 0 <= i < q.len() && 0 <= j < q[i].len() implies #[trigger] q[i][j] != d
            && s.contains(q[i][j]) by {
            if s.last() == d {
                assert(q[i] == p[i] || q[i].len() == 0);
                if i < p.len() {
                    let k = choose|k: int| 0 <= k < prev.len() && prev[k] == p[i][j];
                    assert(s[k] == prev[k]);
                }
            } else if i < p.len() - 1 {
                let k = choose|k: int| 0 <= k < prev.len() && prev[k] == p[i][j];
                assert(s[k] == prev[k]);
            } else {
                if j < p.last().len() {
                    assert(q[i][j] == p[i][j]);
                    let k = choose|k: int| 0 <= k < prev.len() && prev[k] == p[i][j];
                    assert(s[k] == prev[k]);
                } else {
                    assert(q[i][j] == s.last());
                    assert(s[s.len() - 1] == s.last());
                }
            }
        }
    }
}

/// A text without the separator is a single piece.
proof fn lemma_split_without_sep(x: Seq<char>, d: char)
    requires
        forall|j: int| 0 <= j < x.len() ==> x[j] != d,
    ensures
        split_pieces(x, Sep::Char(d)) == seq![x],
    decreases x.len(),
{
    if x.len() > 0 {
        lemma_split_without_sep(x.drop_last(), d);
        assert(x.drop_last().push(x.last()) =~= x);
        assert(seq![x.drop_last()].update(0, x.drop_last().push(x.last())) =~= seq![x]);
    } else {
        assert(x =~= Seq::<char>::empty());
    }
}

/// Splitting `a`, the separator and a text `b` without it gives the pieces
/// of `a` and then `b`.
proof fn lemma_split_after_sep(a: Seq<char>, b: Seq<char>, d: char)
    requires
        forall|j: int| 0 <= j < b.len() ==> b[j] != d,
    ensures
        split_pieces(a + seq![d] + b, Sep::Char(d)) == split_pieces(a, Sep::Char(d)).push(b),
    decreases b.len(),
{
    let s = a + seq![d] + b;
    if b.len() == 0 {
        assert(s.drop_last() =~= a);
        assert(b =~= Seq::<char>::empty());
    } else {
        let b0 = b.drop_last();
        lemma_split_after_sep(a, b0, d);
        assert(s.drop_last() =~= a + seq![d] + b0);
        assert(s.last() == b.last());
        assert(b0.push(b.last()) =~= b);
        let p = split_pieces(a, Sep::Char(d));
        assert(p.push(b0).update(p.len() as int, b0.push(b.last())) =~= p.push(b));
    }
}

/// Splitting the `|`-joined segments gives the segments back.
proof fn lemma_split_join_bar(xs: Seq<Seq<char>>)
    requires
        xs.len() > 0,
        forall|i: int, j: int| 0 <= i < xs.len() && 0 <= j < xs[i].len() ==> #[trigger] xs[i][j] != '|',
    ensures
        split_pieces(join_bar(xs), Sep::Char('|')) == xs,
    decreases xs.len(),
{
    if xs.len() == 1 {
        assert forall|j: int| 0 <= j < xs[0].len() implies xs[0][j] != '|' by {}
        lemma_split_without_sep(xs[0], '|');
        assert(seq![xs[0]] =~= xs);
    } else {
        let ys = xs.drop_last();
        lemma_split_join_bar(ys);
        let x = xs.last();
        assert forall|j: int| 0 <= j < x.len() implies x[j] != '|' by {
            assert(xs[xs.len() - 1][j] == x[j]);
        }
        lemma_split_after_sep(join_bar(ys), x, '|');
        assert(ys.push(x) =~= xs);
    }
}

/// Segments of the right shape that canonicalize to themselves come out of
/// `feat_segments_of` unchanged.
proof fn lemma_feat_segments_of_fixed(xs: Seq<Seq<char>>)
    requires
        forall|i: int| 0 <= i < xs.len() ==> is_feat_segment(#[trigger] xs[i]) && canonical_feat(xs[i]) == xs[i],
    ensures
        feat_segments_of(xs) == xs,
    decreases xs.len(),
{
    if xs.len() > 0 {
        let x = xs.last();
        assert(is_feat_segment(xs[xs.len() - 1]));
        lemma_feat_segments_of_fixed(xs.drop_last());
        lemma_trim_spec_keeps(x);
        assert(crate::text::ascii_lower(x) =~= x);
        assert(xs.drop_last().push(x) =~= xs);
    }
}

/// The segment made of one piece of ASCII text without `|`, when its trim
/// is non-empty, has the shape of a segment and canonicalizes to itself.
proof fn lemma_piece_segment(piece: Seq<char>)
    requires
        all_ascii(piece),
        forall|j: int| 0 <= j < piece.len() ==> piece[j] != '|',
        trim_spec(piece).len() > 0,
    ensures
        is_feat_segment(canonical_feat(lower_text(trim_spec(piece)))),
        canonical_feat(canonical_feat(lower_text(trim_spec(piece)))) == canonical_feat(lower_text(trim_spec(piece))),
{
    let t = trim_spec(piece);
    lemma_trim_spec_trimmed(piece);
    lemma_first_non_ws_bounds(piece, 0);
    lemma_last_non_ws_bounds(piece, piece.len() as int);
    let a = first_non_ws(piece, 0);
    assert(t == piece.subrange(a, last_non_ws_end(piece, piece.len() as int)));
    assert(all_ascii(t)) by {
        assert forall|j: int| 0 <= j < t.len() implies (#[trigger] t[j] as u32) < 128 by {
            assert(t[j] == piece[a + j]);
        }
    }
    let l = lower_text(t);
    assert(l == crate::text::ascii_lower(t));
    assert forall|j: int| 0 <= j < l.len() implies !('A' <= #[trigger] l[j] <= 'Z') && l[j] != '|' by {
        assert(t[j] == piece[a + j]);
    }
    assert(all_ascii(l)) by {
        assert forall|j: int| 0 <= j < l.len() implies (#[trigger] l[j] as u32) < 128 by {
            assert((t[j] as u32) < 128);
        }
    }
    assert(l[0] == (if 'A' <= t[0] <= 'Z' { ((t[0] as u32) + 32) as char } else { t[0] }));
    assert(l.last() == l[l.len() - 1]);
    assert(is_feat_segment(l));
    lemma_canonical_feat_fixed(l);
}

/// `x` put into the strictly sorted list `r`, unless it is there already.
pub open spec fn sorted_insert(r: Seq<Seq<char>>, x: Seq<char>) -> Seq<Seq<char>>
    decreases r.len(),
{
    if r.len() == 0 {
        seq![x]
    } else if r[0] == x {
        r
    } else if lex_lt(x, r[0]) {
        seq![x] + r
    } else {
        seq![r[0]] + sorted_insert(r.drop_first(), x)
    }
}

/// The elements of `s`, each once, in strictly increasing order.
pub open spec fn sort_distinct(s: Seq<Seq<char>>) -> Seq<Seq<char>>
    decreases s.len(),
{
    if s.len() == 0 {
        Seq::empty()
    } else {
        sorted_insert(sort_distinct(s.drop_last()), s.last())
    }
}

proof fn lemma_sorted_insert(r: Seq<Seq<char>>, x: Seq<char>)
    requires
        strictly_sorted(r),
    ensures
        strictly_sorted(sorted_insert(r, x)),
        sorted_insert(r, x).to_set() == r.to_set().insert(x),
    decreases r.len(),
{
    let res = sorted_insert(r, x);
    if r.len() == 0 {
        assert(res.to_set() =~= r.to_set().insert(x)) by {
            assert forall|z: Seq<char>| res.to_set().contains(z) implies z == x by {
                let k = choose|k: int| 0 <= k < res.len() && res[k] == z;
            }
            assert(res[0] == x);
        }
    } else if r[0] == x {
        assert(r.to_set().contains(r[0]));
        assert(res.to_set() =~= r.to_set().insert(x));
    } else if lex_lt(x, r[0]) {
        assert forall|i: int, j: int| 0 <= i < j < res.len() implies lex_lt(#[trigger] res[i], #[trigger] res[j]) by {
            if i == 0 {
                if j > 1 {
                    assert(lex_lt(r[0], r[j - 1]));
                    lemma_lex_trans(x, r[0], r[j - 1]);
                }
            } else {
                assert(res[i] == r[i - 1] && res[j] == r[j - 1]);
            }
        }
        assert forall|z: Seq<char>| res.to_set().contains(z) <==> r.to_set().insert(x).contains(z) by {
            if res.contains(z) {
                let k = choose|k: int| 0 <= k < res.len() && res[k] == z;
                if k > 0 {
                    assert(r[k - 1] == z);
                }
            }
            if r.contains(z) {
                let k = choose|k: int| 0 <= k < r.len() && r[k] == z;
                assert(res[k + 1] == z);
            }
            assert(res[0] == x);
        }
        assert(res.to_set() =~= r.to_set().insert(x));
    } else {
        lemma_lex_total(x, r[0]);
        let t = r.drop_first();
        let rec = sorted_insert(t, x);
        assert(strictly_sorted(t)) by {
            assert forall|i: int, j: int| 0 <= i < j < t.len() implies lex_lt(#[trigger] t[i], #[trigger] t[j]) by {
                assert(t[i] == r[i + 1] && t[j] == r[j + 1]);
            }
        }
        lemma_sorted_insert(t, x);
        assert(res == seq![r[0]] + rec);
        assert forall|j: int| 0 <= j < rec.len() implies lex_lt(r[0], #[trigger] rec[j]) by {
            assert(rec.to_set().contains(rec[j]));
            if rec[j] != x {
                assert(t.to_set().contains(rec[j]));
                let m = choose|m: int| 0 <= m < t.len() && t[m] == rec[j];
                assert(r[m + 1] == rec[j]);
            }
        }
        assert forall|i: int, j: int| 0 <= i < j < res.len() implies lex_lt(#[trigger] res[i], #[trigger] res[j]) by {
            if i == 0 {
                assert(res[j] == rec[j - 1]);
            } else {
                assert(res[i] == rec[i - 1] && res[j] == rec[j - 1]);
            }
        }
        assert forall|z: Seq<char>| res.to_set().contains(z) <==> r.to_set().insert(x).contains(z) by {
            if res.contains(z) {
                let k = choose|k: int| 0 <= k < res.len() && res[k] == z;
                if k > 0 {
                    assert(rec[k - 1] == z);
                    assert(rec.to_set().contains(z));
                    if z != x {
                        let m = choose|m: int| 0 <= m < t.len() && t[m] == z;
                        assert(r[m + 1] == z);
                    }
                } else {
                    assert(r[0] == z);
                }
            }
            if r.contains(z) {
                let k = choose|k: int| 0 <= k < r.len() && r[k] == z;
                if k == 0 {
                    assert(res[0] == z);
                } else {
                    assert(t[k - 1] == z);
                    assert(t.to_set().contains(z));
                    assert(rec.to_set().contains(z));
                    let m = choose|m: int| 0 <= m < rec.len() && rec[m] == z;
                    assert(res[m + 1] == z);
                }
            }
            if z == x {
                assert(rec.to_set().contains(x));
                let m = choose|m: int| 0 <= m < rec.len() && rec[m] == x;
                assert(res[m + 1] == x);
            }
        }
        assert(res.to_set() =~= r.to_set().insert(x));
    }
}

/// Every finite list of strings has a strictly sorted list with the same
/// elements; so `sorted_elements` of its elements is one.
pub proof fn lemma_sorted_elements(s: Seq<Seq<char>>)
    ensures
        strictly_sorted(sorted_elements(s.to_set())),
        sorted_elements(s.to_set()).to_set() == s.to_set(),
    decreases s.len(),
{
    lemma_sort_distinct(s);
}

proof fn lemma_sort_distinct(s: Seq<Seq<char>>)
    ensures
        strictly_sorted(sort_distinct(s)),
        sort_distinct(s).to_set() == s.to_set(),
    decreases s.len(),
{
    if s.len() == 0 {
        assert(s.to_set() =~= Seq::<Seq<char>>::empty().to_set());
    } else {
        lemma_sort_distinct(s.drop_last());
        lemma_sorted_insert(sort_distinct(s.drop_last()), s.last());
        lemma_push_to_set(s.drop_last(), s.last());
        assert(s.drop_last().push(s.last()) =~= s);
    }
}

/// The canonical segments of pieces of ASCII text without `|` have the
/// shape of segments and canonicalize to themselves.
proof fn lemma_feat_segments_of_shaped(pieces: Seq<Seq<char>>)
    requires
        forall|i: int, j: int|
            0 <= i < pieces.len() && 0 <= j < pieces[i].len() ==> (#[trigger] pieces[i][j] as u32) < 128
                && pieces[i][j] != '|',
    ensures
        forall|k: int|
            0 <= k < feat_segments_of(pieces).len() ==> is_feat_segment(#[trigger] feat_segments_of(pieces)[k])
                && canonical_feat(feat_segments_of(pieces)[k]) == feat_segments_of(pieces)[k],
    decreases pieces.len(),
{
    if pieces.len() > 0 {
        let last = pieces.last();
        lemma_feat_segments_of_shaped(pieces.drop_last());
        assert forall|j: int| 0 <= j < last.len() implies (#[trigger] last[j] as u32) < 128 && last[j] != '|' by {
            assert(pieces[pieces.len() - 1][j] == last[j]);
        }
        assert(all_ascii(last));
        let rest = feat_segments_of(pieces.drop_last());
        let fs = feat_segments_of(pieces);
        if trim_spec(last).len() > 0 {
            lemma_piece_segment(last);
        }
        assert forall|k: int| 0 <= k < fs.len() implies is_feat_segment(#[trigger] fs[k]) && canonical_feat(fs[k])
            == fs[k] by {
            if k < rest.len() {
                assert(fs[k] == rest[k]);
            }
        }
    }
}

/// The feats key of ASCII text is normalized once and for all: its
/// segments are strictly increasing, each non-empty, lower-case, free of
/// `|` and of white space at its ends, and normalizing the key again gives
/// the key itself.
pub proof fn lemma_feats_key_idempotent(feats: Seq<char>)
    requires
        all_ascii(feats),
    ensures
        ({
            let xs = sorted_elements(feat_segments(feats).to_set());
            &&& normalize_feats_key_spec(feats) == join_bar(xs)
            &&& strictly_sorted(xs)
            &&& forall|i: int| 0 <= i < xs.len() ==> is_feat_segment(#[trigger] xs[i])
        }),
        normalize_feats_key_spec(normalize_feats_key_spec(feats)) == normalize_feats_key_spec(feats),
{
    let pieces = split_pieces(feats, Sep::Char('|'));
    let segs = feat_segments(feats);
    lemma_split_pieces_chars(feats, '|');
    assert forall|i: int, j: int| 0 <= i < pieces.len() && 0 <= j < pieces[i].len() implies (
    #[trigger] pieces[i][j] as u32) < 128 && pieces[i][j] != '|' by {
        let k = choose|k: int| 0 <= k < feats.len() && feats[k] == pieces[i][j];
    }
    lemma_feat_segments_of_shaped(pieces);
    lemma_sorted_elements(segs);
    let xs = sorted_elements(segs.to_set());
    assert forall|i: int| 0 <= i < xs.len() implies is_feat_segment(#[trigger] xs[i]) && canonical_feat(xs[i])
        == xs[i] by {
        assert(xs.to_set().contains(xs[i]));
        let k = choose|k: int| 0 <= k < segs.len() && segs[k] == xs[i];
    }
    let key = join_bar(xs);
    if xs.len() > 0 {
        lemma_split_join_bar(xs);
    } else {
        assert(trim_spec(Seq::<char>::empty()) =~= Seq::<char>::empty());
        let one = seq![Seq::<char>::empty()];
        assert(one.drop_last() =~= Seq::<Seq<char>>::empty());
        assert(one.last() == Seq::<char>::empty());
        assert(trim_spec(one.last()).len() == 0);
        assert(feat_segments_of(one.drop_last()) =~= Seq::<Seq<char>>::empty());
        assert(feat_segments_of(one) == feat_segments_of(one.drop_last()));
        assert(split_pieces(key, Sep::Char('|')) == one);
        assert(xs =~= Seq::<Seq<char>>::empty());
    }
    lemma_feat_segments_of_fixed(xs);
    assert(feat_segments(key) == xs);
    lemma_sorted_unique(sorted_elements(xs.to_set()), xs);
}

/// Normalized dedup key for UD features: split on `|`, trim, drop empty
/// segments, lowercase, canonicalize known `key=value` pairs, sort, dedup,
/// rejoin. Malformed segments are kept as they are.
///
/// The key's segments are strictly sorted; on ASCII text each is non-empty,
/// lower-case, free of `|` and of white space at its ends, and normalizing
/// the key again gives the key itself.
pub fn normalize_feats_key(feats: &str) -> (r: String)
    ensures
        r@ == normalize_feats_key_spec(feats@),
        strictly_sorted(sorted_elements(feat_segments(feats@).to_set())),
        all_ascii(feats@) ==> forall|i: int|
            0 <= i < sorted_elements(feat_segments(feats@).to_set()).len() ==> is_feat_segment(
                #[trigger] sorted_elements(feat_segments(feats@).to_set())[i],
            ),
        all_ascii(feats@) ==> normalize_feats_key_spec(r@) == r@,
{
    let fv = chars_of(feats);
    let pieces = split_by(&fv, Sep::Char('|'));
    let mut parts: Vec<Vec<char>> = Vec::new();
    let ghost segs = feat_segments(feats@);
    let mut i: usize = 0;
    while i < pieces.len()
        invariant
            i <= pieces@.len(),
            views(pieces@) == split_pieces(feats@, Sep::Char('|')),
            strictly_sorted(views(parts@)),
            views(parts@).to_set() == feat_segments_of(views(pieces@).subrange(0, i as int)).to_set(),
        decreases pieces@.len() - i,
    {
        let ghost before = feat_segments_of(views(pieces@).subrange(0, i as int));
        proof {
            let pre = views(pieces@).subrange(0, i + 1);
            assert(pre.drop_last() =~= views(pieces@).subrange(0, i as int));
            assert(pre.last() == pieces@[i as int]@);
        }
        let t = trim_chars(&pieces[i]);
        if t.len() > 0 {
            let ts = string_from_chars(t.as_slice());
            let lowered = to_lowercase(ts.as_str());
            let canon = canonicalize_feat(lowered.as_str());
            let cv = chars_of(canon);
            let ghost cview = cv@;
            insert_sorted(&mut parts, cv);
            proof {
                lemma_push_to_set(before, cview);
            }
        }
        i = i + 1;
    }
    assert(views(pieces@).subrange(0, pieces@.len() as int) =~= views(pieces@));
    proof {
        lemma_sorted_unique(views(parts@), sorted_elements(segs.to_set()));
    }
    let mut out = String::new();
    let mut k: usize = 0;
    while k < parts.len()
        invariant
            k <= parts@.len(),
            out@ == join_bar(views(parts@).subrange(0, k as int)),
        decreases parts@.len() - k,
    {
        let ghost before = out@;
        if k > 0 {
            out.push('|');
        }
        let ps = string_from_chars(parts[k].as_slice());
        push_str(&mut out, ps.as_str());
        proof {
            let pre = views(parts@).subrange(0, k + 1);
            assert(pre.drop_last() =~= views(parts@).subrange(0, k as int));
            assert(pre.last() == parts@[k as int]@);
            if k == 0 {
                assert(out@ =~= pre[0]);
            } else {
                assert(out@ =~= before + seq!['|'] + pre.last());
            }
        }
        k = k + 1;
    }
    assert(views(parts@).subrange(0, parts@.len() as int) =~= views(parts@));
    proof {
        lemma_sorted_elements(segs);
        if all_ascii(feats@) {
            lemma_feats_key_idempotent(feats@);
        }
    }
    out
}

/// Unicode-aware comparison key for lemmas and surface forms: NFKC
/// normalization plus lowercase. Diacritics are kept ("año" is not "ano").
pub open spec fn normalize_key_spec(s: Seq<char>) -> Seq<char> {
    lower_text(nfkc(s))
}

/// The comparison key of a lemma or surface form (see
/// `normalize_key_spec`).
pub fn normalize_key(s: &str) -> (r: String)
    ensures
        r@ == normalize_key_spec(s@),
{
    let n = to_nfkc(s);
    to_lowercase(n.as_str())
}

/// The comparison key of a character sequence.
pub fn normalize_key_chars(s: &Vec<char>) -> (r: Vec<char>)
    ensures
        r@ == normalize_key_spec(s@),
{
    let st = string_from_chars(s.as_slice());
    let k = normalize_key(st.as_str());
    chars_of(k.as_str())
}

/// The trimmed value when it is non-empty.
pub open spec fn non_empty_spec(value: Option<Seq<char>>) -> Option<Seq<char>> {
    match value {
        Some(v) => if trim_spec(v).len() == 0 {
            None
        } else {
            Some(trim_spec(v))
        },
        None => None,
    }
}

/// `Some(value)` trimmed when non-empty, `None` otherwise: the model
/// sometimes emits empty strings instead of omitting an optional field.
pub fn non_empty(value: Option<String>) -> (r: Option<String>)
    ensures
        crate::session::models::opt_seq(r) == non_empty_spec(crate::session::models::opt_seq(value)),
{
    match value {
        Some(v) => {
            let vv = chars_of(v.as_str());
            let t = trim_chars(&vv);
            if t.len() == 0 {
                None
            } else {
                Some(string_from_chars(t.as_slice()))
            }
        },
        None => None,
    }
}

/// Priority rank of a CEFR source: "manual" and "list" 4, "topic" 3,
/// "llm" 2, anything else or nothing 0.
pub open spec fn cefr_source_rank_spec(source: Option<Seq<char>>) -> u8 {
    match source {
        Some(s) => if s == "manual"@ || s == "list"@ {
            4
        } else if s == "topic"@ {
            3
        } else if s == "llm"@ {
            2
        } else {
            0
        },
        None => 0,
    }
}

/// Priority rank of a CEFR source: user-curated data ("manual"/"list") is
/// 4, curriculum topics ("topic") 3, model estimates ("llm") 2, and
/// anything else or `None` is 0.
pub fn cefr_source_rank(source: Option<&str>) -> (r: u8)
    ensures
        r == cefr_source_rank_spec(
            match source {
                Some(s) => Some(s@),
                None => None,
            },
        ),
{
    match source {
        Some(s) => if str_eq(s, "manual") || str_eq(s, "list") {
            4
        } else if str_eq(s, "topic") {
            3
        } else if str_eq(s, "llm") {
            2
        } else {
            0
        },
        None => 0,
    }
}

/// Whether a CEFR value from `new_source` should replace the stored one
/// from `existing_source`: only when the new source ranks strictly higher,
/// so a model estimate never overwrites a topic- or user-derived level.
pub fn should_replace_cefr(existing_source: Option<&str>, new_source: &str) -> (r: bool)
    ensures
        r == (cefr_source_rank_spec(Some(new_source@)) > cefr_source_rank_spec(
            match existing_source {
                Some(s) => Some(s@),
                None => None,
            },
        )),
{
    cefr_source_rank(Some(new_source)) > cefr_source_rank(existing_source)
}

/// Whether lemma `l` matches `(target_lang, lemma, pos)`: same target
/// language, and the same headword and POS after `normalize_key`.
pub open spec fn lemma_matches(l: Lemma, target_lang: Seq<char>, lemma: Seq<char>, pos: Seq<char>) -> bool {
    l.target_lang@ == target_lang && normalize_key_spec(l.lemma@) == normalize_key_spec(lemma)
        && normalize_key_spec(l.pos@) == normalize_key_spec(pos)
}

/// Index of the existing lemma matching `(target_lang, lemma, pos)`. The
/// headword and POS are compared with `normalize_key` because the model
/// does not guarantee consistent casing or Unicode normalization.
pub fn find_lemma(existing: &[Lemma], target_lang: &str, lemma: &str, pos: &str) -> (r: Option<
    usize,
>)
    ensures
        r matches Some(i) ==> i < existing@.len() && lemma_matches(
            existing@[i as int],
            target_lang@,
            lemma@,
            pos@,
        ) && forall|j: int|
            0 <= j < i ==> !lemma_matches(#[trigger] existing@[j], target_lang@, lemma@, pos@),
        r is None ==> forall|j: int|
            0 <= j < existing@.len() ==> !lemma_matches(
                #[trigger] existing@[j],
                target_lang@,
                lemma@,
                pos@,
            ),
{
    let lk = normalize_key(lemma);
    let pk = normalize_key(pos);
    let lkv = chars_of(lk.as_str());
    let pkv = chars_of(pk.as_str());
    let mut i: usize = 0;
    while i < existing.len()
        invariant
            i <= existing@.len(),
            lkv@ == normalize_key_spec(lemma@),
            pkv@ == normalize_key_spec(pos@),
            forall|j: int|
                0 <= j < i ==> !lemma_matches(#[trigger] existing@[j], target_lang@, lemma@, pos@),
        decreases existing@.len() - i,
    {
        let l = &existing[i];
        if str_eq(l.target_lang.as_str(), target_lang) {
            let a = normalize_key(l.lemma.as_str());
            let av = chars_of(a.as_str());
            if seq_eq(&av, &lkv) {
                let b = normalize_key(l.pos.as_str());
                let bv = chars_of(b.as_str());
                if seq_eq(&bv, &pkv) {
                    return Some(i);
                }
            }
        }
        i = i + 1;
    }
    None
}

/// Whether form `f` matches `(lemma_id, surface, feats_key)`: same lemma,
/// and the same feats key, or, when `feats_key` is empty, the same surface
/// after `normalize_key`.
pub open spec fn form_matches(f: Form, lemma_id: Seq<char>, surface: Seq<char>, feats_key: Seq<char>) -> bool {
    f.lemma_id@ == lemma_id && if feats_key.len() == 0 {
        normalize_key_spec(f.surface@) == normalize_key_spec(surface)
    } else {
        f.feats_key@ == feats_key
    }
}

/// Index of the existing form matching `(lemma_id, feats_key)`. Falls back
/// to a surface match when `feats_key` is empty, so malformed feats do not
/// produce duplicate forms.
pub fn find_form(existing: &[Form], lemma_id: &str, surface: &str, feats_key: &str) -> (r: Option<
    usize,
>)
    ensures
        r matches Some(i) ==> i < existing@.len() && form_matches(
            existing@[i as int],
            lemma_id@,
            surface@,
            feats_key@,
        ) && forall|j: int|
            0 <= j < i ==> !form_matches(#[trigger] existing@[j], lemma_id@, surface@, feats_key@),
        r is None ==> forall|j: int|
            0 <= j < existing@.len() ==> !form_matches(
                #[trigger] existing@[j],
                lemma_id@,
                surface@,
                feats_key@,
            ),
{
    let fk_empty = feats_key.unicode_len() == 0;
    let sk = normalize_key(surface);
    let skv = chars_of(sk.as_str());
    let mut i: usize = 0;
    while i < existing.len()
        invariant
            i <= existing@.len(),
            fk_empty == (feats_key@.len() == 0),
            skv@ == normalize_key_spec(surface@),
            forall|j: int|
                0 <= j < i ==> !form_matches(#[trigger] existing@[j], lemma_id@, surface@, feats_key@),
        decreases existing@.len() - i,
    {
        let f = &existing[i];
        if str_eq(f.lemma_id.as_str(), lemma_id) {
            if fk_empty {
                let a = normalize_key(f.surface.as_str());
                let av = chars_of(a.as_str());
                if seq_eq(&av, &skv) {
                    return Some(i);
                }
            } else if str_eq(f.feats_key.as_str(), feats_key) {
                return Some(i);
            }
        }
        i = i + 1;
    }
    None
}

/// Whether a vocabulary use is a failed student-side use: side "student"
/// with a spelling or usage assessment of `Some(false)`.
pub open spec fn is_failed_student_use(u: VocabularyUse) -> bool {
    u.side@ == "student"@ && (u.spelling_ok == Some(false) || u.usage_ok == Some(false))
}

/// Whether a grammar error is owned by the vocabulary system: its pattern
/// and explanation have significant words, and some failed student-side
/// use has one of them as a word of its surface or lemma.
pub open spec fn vocabulary_owns_error_spec(uses: Seq<VocabularyUse>, error_text: Seq<char>) -> bool {
    let words = significant_words_spec(error_text);
    words.len() > 0 && exists|i: int|
        0 <= i < uses.len() && is_failed_student_use(#[trigger] uses[i]) && (
        text_contains_any_word_spec(uses[i].surface@, words) || text_contains_any_word_spec(
            uses[i].lemma@,
            words,
        ))
}

/// A misspelled word of the student owns the error: when a student-side
/// use was judged misspelled (whatever its usage verdict) and its surface
/// or lemma holds a significant word of the error's text, vocabulary owns
/// the error.
pub proof fn lemma_misspelled_word_owns_error(uses: Seq<VocabularyUse>, error_text: Seq<char>, i: int)
    requires
        0 <= i < uses.len(),
        uses[i].side@ == "student"@,
        uses[i].spelling_ok == Some(false),
        significant_words_spec(error_text).len() > 0,
        text_contains_any_word_spec(uses[i].surface@, significant_words_spec(error_text))
            || text_contains_any_word_spec(uses[i].lemma@, significant_words_spec(error_text)),
    ensures
        vocabulary_owns_error_spec(uses, error_text),
{
    assert(is_failed_student_use(uses[i]));
}

/// Vocabulary owns an error only through a student-side use that was
/// judged wrong (misspelled or misused) and shares a significant word with
/// the error's text: a use from the reference side, or one with no
/// negative verdict, never owns it.
pub proof fn lemma_owned_error_has_failed_student_use(uses: Seq<VocabularyUse>, error_text: Seq<char>)
    ensures
        vocabulary_owns_error_spec(uses, error_text) == (significant_words_spec(error_text).len() > 0
            && exists|i: int|
            0 <= i < uses.len() && (#[trigger] uses[i]).side@ == "student"@ && (uses[i].spelling_ok
                == Some(false) || uses[i].usage_ok == Some(false)) && (text_contains_any_word_spec(
                uses[i].surface@,
                significant_words_spec(error_text),
            ) || text_contains_any_word_spec(uses[i].lemma@, significant_words_spec(error_text)))),
{
}

/// Whether some piece of `text` normalizes to a non-empty member of
/// `words` (see `text_contains_any_word_spec`), on character vectors.
fn text_has_word(text: &Vec<char>, words: &Vec<Vec<char>>) -> (r: bool)
    ensures
        r == text_contains_any_word_spec(text@, views(words@)),
{
    let pieces = split_by(text, Sep::NonAlphabetic);
    let mut i: usize = 0;
    while i < pieces.len()
        invariant
            i <= pieces@.len(),
            views(pieces@) == split_pieces(text@, Sep::NonAlphabetic),
            forall|j: int|
                0 <= j < i ==> {
                    let t = crate::words::normalize_token_spec(
                        #[trigger] split_pieces(text@, Sep::NonAlphabetic)[j],
                    );
                    !(t.len() > 0 && views(words@).contains(t))
                },
        decreases pieces@.len() - i,
    {
        let t = normalize_token(&pieces[i]);
        assert(pieces@[i as int]@ == split_pieces(text@, Sep::NonAlphabetic)[i as int]);
        if t.len() > 0 && contains_word(words, &t) {
            return true;
        }
        i = i + 1;
    }
    false
}

/// Whether a grammar error is fully explained by a single word form the
/// student got wrong: true when a student-side vocabulary use failed
/// (`spelling_ok` or `usage_ok` is `Some(false)`) and its surface or lemma
/// shares significant words with the error's pattern and explanation. Such
/// errors belong to the vocabulary system and must not also create
/// learning items.
pub fn vocabulary_owns_error(sentence: &SentenceAnalysis, error: &GrammarError) -> (r: bool)
    ensures
        r == vocabulary_owns_error_spec(
            sentence.used_vocabulary@,
            error.pattern@ + " "@ + error.explanation@,
        ),
{
    let mut text = copy_str(error.pattern.as_str());
    push_str(&mut text, " ");
    push_str(&mut text, error.explanation.as_str());
    let tv = chars_of(text.as_str());
    let words = significant_word_chars(&tv);
    if words.len() == 0 {
        return false;
    }
    let uses = &sentence.used_vocabulary;
    let ghost et = error.pattern@ + " "@ + error.explanation@;
    let mut i: usize = 0;
    while i < uses.len()
        invariant
            i <= uses@.len(),
            uses == &sentence.used_vocabulary,
            et == error.pattern@ + " "@ + error.explanation@,
            tv@ == et,
            views(words@) == significant_words_spec(et),
            views(words@).len() > 0,
            forall|j: int|
                0 <= j < i ==> !(is_failed_student_use(#[trigger] uses@[j]) && (
                text_contains_any_word_spec(uses@[j].surface@, views(words@))
                    || text_contains_any_word_spec(uses@[j].lemma@, views(words@)))),
        decreases uses@.len() - i,
    {
        let u = &uses[i];
        let student = str_eq(u.side.as_str(), "student");
        let failed = matches!(u.spelling_ok, Some(false)) || matches!(u.usage_ok, Some(false));
        if student && failed {
            let sv = chars_of(u.surface.as_str());
            let lv = chars_of(u.lemma.as_str());
            if text_has_word(&sv, &words) || text_has_word(&lv, &words) {
                assert(is_failed_student_use(uses@[i as int]));
                return true;
            }
        }
        i = i + 1;
    }
    false
}

/// A fresh copy of an optional string.
pub fn copy_opt(o: &Option<String>) -> (r: Option<String>)
    ensures
        opt_seq(r) == opt_seq(*o),
{
    match o {
        Some(s) => Some(copy_str(s.as_str())),
        None => None,
    }
}

/// `a` when it is `Some`, else `b` (`Option::or`).
pub open spec fn or_else(a: Option<Seq<char>>, b: Option<Seq<char>>) -> Option<Seq<char>> {
    match a {
        Some(x) => Some(x),
        None => b,
    }
}

/// The keys of the non-empty word pieces of `pieces` (see
/// `normalize_key_spec`), in order.
pub open spec fn piece_keys(pieces: Seq<Seq<char>>) -> Seq<Seq<char>>
    decreases pieces.len(),
{
    if pieces.len() == 0 {
        Seq::empty()
    } else {
        let rest = piece_keys(pieces.drop_last());
        let k = normalize_key_spec(pieces.last());
        if k.len() > 0 {
            rest.push(k)
        } else {
            rest
        }
    }
}

/// The word keys of a list of sentences: each split at non-alphanumeric
/// characters, each piece keyed with `normalize_key`, empty keys dropped.
pub open spec fn sentence_tokens(sentences: Seq<Seq<char>>) -> Seq<Seq<char>>
    decreases sentences.len(),
{
    if sentences.len() == 0 {
        Seq::empty()
    } else {
        sentence_tokens(sentences.drop_last()) + piece_keys(
            split_pieces(sentences.last(), Sep::NonAlphanumeric),
        )
    }
}

/// The target-language sentences of the exercises: for each exercise in
/// order, its expected translation and then its acceptable translations.
/// (The source sentence is in the learner's native language, so words from
/// it would never match.)
pub open spec fn exercise_sentences(exs: Seq<Exercise>) -> Seq<Seq<char>>
    decreases exs.len(),
{
    if exs.len() == 0 {
        Seq::empty()
    } else {
        exercise_sentences(exs.drop_last()).push(exs.last().expected_translation@)
            + exs.last().acceptable_translations.deep_view()
    }
}

/// The word keys of the exercises' target-language sentences.
pub open spec fn exercise_tokens_spec(exs: Seq<Exercise>) -> Seq<Seq<char>> {
    sentence_tokens(exercise_sentences(exs))
}

fn append_sentence_tokens(tokens: &mut Vec<Vec<char>>, sentence: &Vec<char>)
    ensures
        views(final(tokens)@) == views(old(tokens)@) + piece_keys(
            split_pieces(sentence@, Sep::NonAlphanumeric),
        ),
{
    let pieces = split_by(sentence, Sep::NonAlphanumeric);
    let ghost start = views(tokens@);
    let mut i: usize = 0;
    while i < pieces.len()
        invariant
            i <= pieces@.len(),
            views(pieces@) == split_pieces(sentence@, Sep::NonAlphanumeric),
            views(tokens@) == start + piece_keys(views(pieces@).subrange(0, i as int)),
        decreases pieces@.len() - i,
    {
        let k = normalize_key_chars(&pieces[i]);
        let ghost before = views(tokens@);
        proof {
            let pre = views(pieces@).subrange(0, i + 1);
            assert(pre.drop_last() =~= views(pieces@).subrange(0, i as int));
            assert(pre.last() == pieces@[i as int]@);
        }
        if k.len() > 0 {
            let ghost kv = k@;
            tokens.push(k);
            assert(views(tokens@) =~= before.push(kv));
            assert(start + piece_keys(views(pieces@).subrange(0, i + 1)) =~= (start + piece_keys(
                views(pieces@).subrange(0, i as int),
            )).push(kv));
        }
        i = i + 1;
    }
    assert(views(pieces@).subrange(0, pieces@.len() as int) =~= views(pieces@));
}

/// The word keys of the exercises' target-language sentences (see
/// `exercise_tokens_spec`); membership is what matters.
fn exercise_tokens(exercises: &[Exercise]) -> (r: Vec<Vec<char>>)
    ensures
        views(r@) == exercise_tokens_spec(exercises@),
{
    let mut sentences: Vec<Vec<char>> = Vec::new();
    let mut i: usize = 0;
    while i < exercises.len()
        invariant
            i <= exercises@.len(),
            views(sentences@) == exercise_sentences(exercises@.subrange(0, i as int)),
        decreases exercises@.len() - i,
    {
        let ex = &exercises[i];
        proof {
            let pre = exercises@.subrange(0, i + 1);
            assert(pre.drop_last() =~= exercises@.subrange(0, i as int));
            assert(pre.last() == exercises@[i as int]);
        }
        let ghost base = views(sentences@).push(ex.expected_translation@);
        sentences.push(chars_of(ex.expected_translation.as_str()));
        assert(views(sentences@) =~= base);
        let mut j: usize = 0;
        while j < ex.acceptable_translations.len()
            invariant
                j <= ex.acceptable_translations@.len(),
                views(sentences@) == base + ex.acceptable_translations.deep_view().subrange(
                    0,
                    j as int,
                ),
            decreases ex.acceptable_translations@.len() - j,
        {
            let ghost before = views(sentences@);
            let a = chars_of(ex.acceptable_translations[j].as_str());
            sentences.push(a);
            assert(views(sentences@) =~= before.push(ex.acceptable_translations@[j as int]@));
            assert(base + ex.acceptable_translations.deep_view().subrange(0, j + 1) =~= (base
                + ex.acceptable_translations.deep_view().subrange(0, j as int)).push(
                ex.acceptable_translations@[j as int]@,
            ));
            j = j + 1;
        }
        assert(ex.acceptable_translations.deep_view().subrange(
            0,
            ex.acceptable_translations@.len() as int,
        ) =~= ex.acceptable_translations.deep_view());
        i = i + 1;
    }
    assert(exercises@.subrange(0, exercises@.len() as int) =~= exercises@);
    let mut tokens: Vec<Vec<char>> = Vec::new();
    let mut k: usize = 0;
    while k < sentences.len()
        invariant
            k <= sentences@.len(),
            views(sentences@) == exercise_sentences(exercises@),
            views(tokens@) == sentence_tokens(views(sentences@).subrange(0, k as int)),
        decreases sentences@.len() - k,
    {
        proof {
            let pre = views(sentences@).subrange(0, k + 1);
            assert(pre.drop_last() =~= views(sentences@).subrange(0, k as int));
            assert(pre.last() == sentences@[k as int]@);
        }
        append_sentence_tokens(&mut tokens, &sentences[k]);
        k = k + 1;
    }
    assert(views(sentences@).subrange(0, sentences@.len() as int) =~= views(sentences@));
    tokens
}

/// The key a raw warm-up entry is looked up by: its trimmed lemma through
/// `normalize_key`.
pub open spec fn warmup_raw_key(item: RawWarmupItem) -> Seq<char> {
    normalize_key_spec(trim_spec(item.lemma@))
}

/// Index of the first raw warm-up entry from `i` on whose key is `key`.
pub open spec fn first_warmup_raw_from(raw: Seq<RawWarmupItem>, key: Seq<char>, i: int) -> Option<
    int,
>
    decreases raw.len() - i,
{
    if i < 0 || i >= raw.len() {
        None
    } else if warmup_raw_key(raw[i]) == key {
        Some(i)
    } else {
        first_warmup_raw_from(raw, key, i + 1)
    }
}

/// The raw warm-up entry used for a lemma key: the first one with that key
/// (entries with an empty key are never used).
pub open spec fn warmup_raw_for(raw: Seq<RawWarmupItem>, key: Seq<char>) -> Option<int> {
    if key.len() == 0 {
        None
    } else {
        first_warmup_raw_from(raw, key, 0)
    }
}

/// Whether some form of `forms` belongs to the lemma with id `id`.
pub open spec fn has_forms(forms: Seq<Form>, id: Seq<char>) -> bool {
    exists|j: int| 0 <= j < forms.len() && (#[trigger] forms[j]).lemma_id@ == id
}

/// Whether some form of the lemma with id `id` has a surface whose key is
/// among `tokens`.
pub open spec fn some_form_appears(forms: Seq<Form>, id: Seq<char>, tokens: Seq<Seq<char>>) -> bool {
    exists|j: int|
        0 <= j < forms.len() && (#[trigger] forms[j]).lemma_id@ == id && tokens.contains(
            normalize_key_spec(forms[j].surface@),
        )
}

/// Whether a forced lemma gets a warm-up card: its headword or one of its
/// known forms appears in the exercises, or it has no known forms and the
/// model returned a warm-up entry for it.
pub open spec fn warmup_keeps(
    lemma: Lemma,
    forms: Seq<Form>,
    tokens: Seq<Seq<char>>,
    raw: Seq<RawWarmupItem>,
) -> bool {
    let key = normalize_key_spec(lemma.lemma@);
    tokens.contains(key) || some_form_appears(forms, lemma.id@, tokens) || (!has_forms(
        forms,
        lemma.id@,
    ) && warmup_raw_for(raw, key) is Some)
}

/// The warm-up card of a forced lemma: the translation and example come
/// from the model's entry when there is one (falling back to the stored
/// translation), POS and CEFR level from the entry or the lemma, and the
/// kind is `New` for a never-evaluated lemma.
pub open spec fn warmup_card(lemma: Lemma, raw: Seq<RawWarmupItem>) -> WarmupItemView {
    let key = normalize_key_spec(lemma.lemma@);
    let kind = if lemma.status == STATUS_NEW {
        WarmupKind::New
    } else {
        WarmupKind::Review
    };
    match warmup_raw_for(raw, key) {
        Some(i) => WarmupItemView {
            lemma_id: Some(lemma.id@),
            lemma: lemma.lemma@,
            pos: or_else(non_empty_spec(opt_seq(raw[i].pos)), non_empty_spec(Some(lemma.pos@))),
            cefr_level: or_else(
                non_empty_spec(opt_seq(raw[i].cefr_level)),
                opt_seq(lemma.cefr_level),
            ),
            translation: match non_empty_spec(opt_seq(raw[i].translation)) {
                Some(t) => t,
                None => lemma.translation@,
            },
            example: non_empty_spec(opt_seq(raw[i].example)),
            kind,
        },
        None => WarmupItemView {
            lemma_id: Some(lemma.id@),
            lemma: lemma.lemma@,
            pos: non_empty_spec(Some(lemma.pos@)),
            cefr_level: opt_seq(lemma.cefr_level),
            translation: lemma.translation@,
            example: None,
            kind,
        },
    }
}

/// What `match_warmup_items` returns: in forced order, the card of every
/// kept lemma (see `warmup_keeps`) whose translation is non-empty.
pub open spec fn match_warmup_spec(
    forced: Seq<Lemma>,
    forms: Seq<Form>,
    tokens: Seq<Seq<char>>,
    raw: Seq<RawWarmupItem>,
) -> Seq<WarmupItemView>
    decreases forced.len(),
{
    if forced.len() == 0 {
        Seq::empty()
    } else {
        let rest = match_warmup_spec(forced.drop_last(), forms, tokens, raw);
        let lemma = forced.last();
        let card = warmup_card(lemma, raw);
        if warmup_keeps(lemma, forms, tokens, raw) && card.translation.len() > 0 {
            rest.push(card)
        } else {
            rest
        }
    }
}

/// Whether `card` is a card of `lemma`: it carries the lemma's id and
/// headword and a translation, and it is `New` exactly when the lemma was
/// never evaluated (`STATUS_NEW`).
pub open spec fn is_card_of(card: WarmupItemView, lemma: Lemma) -> bool {
    &&& card.lemma_id == Some(lemma.id@)
    &&& card.lemma == lemma.lemma@
    &&& card.translation.len() > 0
    &&& (card.kind == WarmupKind::New) == (lemma.status == STATUS_NEW)
}

/// There are no more warm-up cards than forced lemmas, and every card
/// belongs to a forced lemma: it carries that lemma's id and headword, and it is `New`
/// exactly when the lemma was never evaluated (`STATUS_NEW`); a practising
/// or known lemma gets a `Review` card.
pub proof fn lemma_warmup_cards_follow_status(
    forced: Seq<Lemma>,
    forms: Seq<Form>,
    tokens: Seq<Seq<char>>,
    raw: Seq<RawWarmupItem>,
)
    ensures
        match_warmup_spec(forced, forms, tokens, raw).len() <= forced.len(),
        forall|k: int|
            0 <= k < match_warmup_spec(forced, forms, tokens, raw).len() ==> exists|j: int|
                0 <= j < forced.len() && is_card_of(
                    #[trigger] match_warmup_spec(forced, forms, tokens, raw)[k],
                    #[trigger] forced[j],
                ),
    decreases forced.len(),
{
    if forced.len() > 0 {
        let prev = forced.drop_last();
        lemma_warmup_cards_follow_status(prev, forms, tokens, raw);
        let rest = match_warmup_spec(prev, forms, tokens, raw);
        let res = match_warmup_spec(forced, forms, tokens, raw);
        assert forall|k: int| 0 <= k < res.len() implies exists|j: int|
            0 <= j < forced.len() && is_card_of(#[trigger] res[k], #[trigger] forced[j]) by {
            if k < rest.len() {
                assert(res[k] == rest[k]);
                let j = choose|j: int| 0 <= j < prev.len() && is_card_of(#[trigger] rest[k], #[trigger] prev[j]);
                assert(forced[j] == prev[j]);
            } else {
                let j = forced.len() - 1;
                assert(forced[j] == forced.last());
            }
        }
    }
}

/// The views of a list of warm-up cards.
pub open spec fn warmup_views(s: Seq<WarmupItem>) -> Seq<WarmupItemView> {
    Seq::new(s.len(), |i: int| s[i]@)
}

/// The views of a list of cloze items.
pub open spec fn cloze_views(s: Seq<ClozeItem>) -> Seq<ClozeItemView> {
    Seq::new(s.len(), |i: int| s[i]@)
}

fn warmup_raw_index(keys: &Vec<Vec<char>>, key: &Vec<char>, raw: Ghost<Seq<RawWarmupItem>>) -> (r:
    Option<usize>)
    requires
        keys@.len() == raw@.len(),
        forall|j: int| 0 <= j < keys@.len() ==> (#[trigger] keys@[j])@ == warmup_raw_key(raw@[j]),
    ensures
        r matches Some(i) ==> warmup_raw_for(raw@, key@) == Some(i as int) && i < raw@.len(),
        r is None ==> warmup_raw_for(raw@, key@) is None,
{
    if key.len() == 0 {
        return None;
    }
    let mut i: usize = 0;
    while i < keys.len()
        invariant
            i <= keys@.len(),
            key@.len() > 0,
            keys@.len() == raw@.len(),
            forall|j: int| 0 <= j < keys@.len() ==> (#[trigger] keys@[j])@ == warmup_raw_key(raw@[j]),
            first_warmup_raw_from(raw@, key@, 0) == first_warmup_raw_from(raw@, key@, i as int),
        decreases keys@.len() - i,
    {
        if seq_eq(&keys[i], key) {
            return Some(i);
        }
        i = i + 1;
    }
    None
}

/// Builds warm-up cards for a session's forced lemmas from the model's raw
/// `warmup` output. Only words that actually appear in the session's
/// exercises get a card: a forced lemma qualifies when its headword or one
/// of its known forms (matched via `normalize_key` against the tokens of
/// the exercises' expected and acceptable translations) shows up. A lemma
/// with no known forms is also included when the model returned a warm-up
/// entry for it. Cards follow the forced-lemma order and are not capped. A
/// raw entry whose lemma matches supplies the translation and example;
/// otherwise the stored translation is used with no example. Lemmas without
/// any translation are skipped, and raw entries matching no forced lemma
/// are dropped. Each card is `New` when the lemma is `STATUS_NEW` and
/// `Review` otherwise.
pub fn match_warmup_items(
    forced: &[Lemma],
    forms: &[Form],
    exercises: &[Exercise],
    raw: Vec<RawWarmupItem>,
) -> (r: Vec<WarmupItem>)
    ensures
        warmup_views(r@) == match_warmup_spec(
            forced@,
            forms@,
            exercise_tokens_spec(exercises@),
            raw@,
        ),
{
    let ghost tokens_spec = exercise_tokens_spec(exercises@);
    let tokens = exercise_tokens(exercises);
    let mut keys: Vec<Vec<char>> = Vec::new();
    let mut q: usize = 0;
    while q < raw.len()
        invariant
            q <= raw@.len(),
            keys@.len() == q,
            forall|j: int| 0 <= j < q ==> (#[trigger] keys@[j])@ == warmup_raw_key(raw@[j]),
        decreases raw@.len() - q,
    {
        let lv = chars_of(raw[q].lemma.as_str());
        let t = trim_chars(&lv);
        let k = normalize_key_chars(&t);
        keys.push(k);
        q = q + 1;
    }
    let mut surface_keys: Vec<Vec<char>> = Vec::new();
    let mut f: usize = 0;
    while f < forms.len()
        invariant
            f <= forms@.len(),
            surface_keys@.len() == f,
            forall|j: int|
                0 <= j < f ==> (#[trigger] surface_keys@[j])@ == normalize_key_spec(forms@[j].surface@),
        decreases forms@.len() - f,
    {
        let sv = chars_of(forms[f].surface.as_str());
        surface_keys.push(normalize_key_chars(&sv));
        f = f + 1;
    }
    let mut out: Vec<WarmupItem> = Vec::new();
    let mut i: usize = 0;
    while i < forced.len()
        invariant
            i <= forced@.len(),
            views(tokens@) == tokens_spec,
            tokens_spec == exercise_tokens_spec(exercises@),
            keys@.len() == raw@.len(),
            forall|j: int| 0 <= j < keys@.len() ==> (#[trigger] keys@[j])@ == warmup_raw_key(raw@[j]),
            surface_keys@.len() == forms@.len(),
            forall|j: int|
                0 <= j < forms@.len() ==> (#[trigger] surface_keys@[j])@ == normalize_key_spec(
                    forms@[j].surface@,
                ),
            warmup_views(out@) == match_warmup_spec(
                forced@.subrange(0, i as int),
                forms@,
                tokens_spec,
                raw@,
            ),
        decreases forced@.len() - i,
    {
        let lemma = &forced[i];
        proof {
            let pre = forced@.subrange(0, i + 1);
            assert(pre.drop_last() =~= forced@.subrange(0, i as int));
            assert(pre.last() == forced@[i as int]);
        }
        let lv = chars_of(lemma.lemma.as_str());
        let key = normalize_key_chars(&lv);
        let idv = chars_of(lemma.id.as_str());
        let mut has_form = false;
        let mut form_appears = false;
        let mut j: usize = 0;
        while j < forms.len()
            invariant
                j <= forms@.len(),
                idv@ == lemma.id@,
                views(tokens@) == tokens_spec,
                surface_keys@.len() == forms@.len(),
                forall|m: int|
                    0 <= m < forms@.len() ==> (#[trigger] surface_keys@[m])@ == normalize_key_spec(
                        forms@[m].surface@,
                    ),
                has_form == exists|m: int| 0 <= m < j && (#[trigger] forms@[m]).lemma_id@ == lemma.id@,
                form_appears == exists|m: int|
                    0 <= m < j && (#[trigger] forms@[m]).lemma_id@ == lemma.id@ && tokens_spec.contains(
                        normalize_key_spec(forms@[m].surface@),
                    ),
            decreases forms@.len() - j,
        {
            let fid = chars_of(forms[j].lemma_id.as_str());
            if seq_eq(&fid, &idv) {
                has_form = true;
                if contains_word(&tokens, &surface_keys[j]) {
                    form_appears = true;
                }
            }
            j = j + 1;
        }
        let raw_index = warmup_raw_index(&keys, &key, Ghost(raw@));
        let keep = contains_word(&tokens, &key) || form_appears || (!has_form
            && raw_index.is_some());
        assert(keep == warmup_keeps(*lemma, forms@, tokens_spec, raw@));
        if keep {
            let kind = if lemma.status == STATUS_NEW {
                WarmupKind::New
            } else {
                WarmupKind::Review
            };
            let item = match raw_index {
                Some(ri) => {
                    let entry = &raw[ri];
                    let translation = match non_empty(copy_opt(&entry.translation)) {
                        Some(t) => t,
                        None => copy_str(lemma.translation.as_str()),
                    };
                    let pos = match non_empty(copy_opt(&entry.pos)) {
                        Some(p) => Some(p),
                        None => non_empty(Some(copy_str(lemma.pos.as_str()))),
                    };
                    let cefr_level = match non_empty(copy_opt(&entry.cefr_level)) {
                        Some(c) => Some(c),
                        None => copy_opt(&lemma.cefr_level),
                    };
                    WarmupItem {
                        lemma_id: Some(copy_str(lemma.id.as_str())),
                        lemma: copy_str(lemma.lemma.as_str()),
                        pos,
                        cefr_level,
                        translation,
                        example: non_empty(copy_opt(&entry.example)),
                        kind,
                    }
                },
                None => WarmupItem {
                    lemma_id: Some(copy_str(lemma.id.as_str())),
                    lemma: copy_str(lemma.lemma.as_str()),
                    pos: non_empty(Some(copy_str(lemma.pos.as_str()))),
                    cefr_level: copy_opt(&lemma.cefr_level),
                    translation: copy_str(lemma.translation.as_str()),
                    example: None,
                    kind,
                },
            };
            assert(item@ == warmup_card(*lemma, raw@));
            if item.translation.as_str().unicode_len() > 0 {
                let ghost before = warmup_views(out@);
                out.push(item);
                assert(warmup_views(out@) =~= before.push(warmup_card(*lemma, raw@)));
            }
        }
        i = i + 1;
    }
    assert(forced@.subrange(0, forced@.len() as int) =~= forced@);
    out
}

/// Index of the last lemma of `lemmas` whose headword key is `key`.
pub open spec fn last_lemma_with_key(lemmas: Seq<Lemma>, key: Seq<char>) -> Option<int>
    decreases lemmas.len(),
{
    if lemmas.len() == 0 {
        None
    } else if normalize_key_spec(lemmas.last().lemma@) == key {
        Some(lemmas.len() - 1)
    } else {
        last_lemma_with_key(lemmas.drop_last(), key)
    }
}

/// The key a raw vocabulary entry is looked up by.
pub open spec fn vocab_raw_key(item: RawVocabularyItem) -> Seq<char> {
    normalize_key_spec(trim_spec(item.lemma@))
}

/// The keys of the raw vocabulary entries that have one, in order.
pub open spec fn vocab_seen_keys(raw: Seq<RawVocabularyItem>) -> Seq<Seq<char>>
    decreases raw.len(),
{
    if raw.len() == 0 {
        Seq::empty()
    } else {
        let rest = vocab_seen_keys(raw.drop_last());
        let k = vocab_raw_key(raw.last());
        if k.len() > 0 {
            rest.push(k)
        } else {
            rest
        }
    }
}

/// The part of speech of an optional tag, empty when absent.
pub open spec fn pos_or_empty(pos: Option<Seq<char>>) -> Seq<char> {
    match pos {
        Some(p) => p,
        None => Seq::empty(),
    }
}

/// The preview card for one raw vocabulary entry, or `None` when the word
/// is known (an existing lemma answered correctly before), is a function
/// word, does not appear in the exercises (checked by its surface form, or
/// its lemma when the surface is missing) or has no translation.
pub open spec fn new_word_card(
    existing: Seq<Lemma>,
    tokens: Seq<Seq<char>>,
    item: RawVocabularyItem,
) -> Option<WarmupItemView> {
    let key = vocab_raw_key(item);
    let ex = last_lemma_with_key(existing, key);
    let surface_key = normalize_key_spec(trim_spec(item.surface@));
    let appears = if surface_key.len() == 0 {
        tokens.contains(key)
    } else {
        tokens.contains(surface_key)
    };
    let translation = or_else(
        non_empty_spec(opt_seq(item.translation)),
        match ex {
            Some(k) => non_empty_spec(Some(existing[k].translation@)),
            None => None,
        },
    );
    if ex matches Some(k) && existing[k].correct_uses > 0 {
        None
    } else if !is_content_pos_spec(pos_or_empty(opt_seq(item.pos))) {
        None
    } else if !appears {
        None
    } else {
        match translation {
            None => None,
            Some(t) => Some(
                WarmupItemView {
                    lemma_id: match ex {
                        Some(k) => Some(existing[k].id@),
                        None => None,
                    },
                    lemma: item.lemma@,
                    pos: or_else(
                        non_empty_spec(opt_seq(item.pos)),
                        match ex {
                            Some(k) => non_empty_spec(Some(existing[k].pos@)),
                            None => None,
                        },
                    ),
                    cefr_level: or_else(
                        non_empty_spec(opt_seq(item.cefr_level)),
                        match ex {
                            Some(k) => opt_seq(existing[k].cefr_level),
                            None => None,
                        },
                    ),
                    translation: t,
                    example: None,
                    kind: WarmupKind::New,
                },
            ),
        }
    }
}

/// What `new_word_items` returns: for each raw entry in order whose key is
/// non-empty and was not seen in an earlier entry, its preview card when it
/// has one (see `new_word_card`).
pub open spec fn new_word_items_spec(
    existing: Seq<Lemma>,
    tokens: Seq<Seq<char>>,
    raw: Seq<RawVocabularyItem>,
) -> Seq<WarmupItemView>
    decreases raw.len(),
{
    if raw.len() == 0 {
        Seq::empty()
    } else {
        let rest = new_word_items_spec(existing, tokens, raw.drop_last());
        let item = raw.last();
        let key = vocab_raw_key(item);
        if key.len() > 0 && !vocab_seen_keys(raw.drop_last()).contains(key) && new_word_card(
            existing,
            tokens,
            item,
        ) is Some {
            rest.push(new_word_card(existing, tokens, item)->0)
        } else {
            rest
        }
    }
}

fn last_lemma_index(keys: &Vec<Vec<char>>, key: &Vec<char>, lemmas: Ghost<Seq<Lemma>>) -> (r: Option<
    usize,
>)
    requires
        keys@.len() == lemmas@.len(),
        forall|j: int|
            0 <= j < keys@.len() ==> (#[trigger] keys@[j])@ == normalize_key_spec(lemmas@[j].lemma@),
    ensures
        r matches Some(i) ==> last_lemma_with_key(lemmas@, key@) == Some(i as int) && i
            < lemmas@.len(),
        r is None ==> last_lemma_with_key(lemmas@, key@) is None,
{
    let mut n: usize = keys.len();
    assert(lemmas@.subrange(0, n as int) =~= lemmas@);
    while n > 0
        invariant
            n <= keys@.len(),
            keys@.len() == lemmas@.len(),
            forall|j: int|
                0 <= j < keys@.len() ==> (#[trigger] keys@[j])@ == normalize_key_spec(
                    lemmas@[j].lemma@,
                ),
            last_lemma_with_key(lemmas@, key@) == last_lemma_with_key(
                lemmas@.subrange(0, n as int),
                key@,
            ),
        decreases n,
    {
        let ghost pre = lemmas@.subrange(0, n as int);
        assert(pre.last() == lemmas@[n - 1]);
        assert(pre.drop_last() =~= lemmas@.subrange(0, n - 1));
        if seq_eq(&keys[n - 1], key) {
            return Some(n - 1);
        }
        n = n - 1;
    }
    None
}

fn lemma_keys(lemmas: &[Lemma]) -> (r: Vec<Vec<char>>)
    ensures
        r@.len() == lemmas@.len(),
        forall|j: int|
            0 <= j < r@.len() ==> (#[trigger] r@[j])@ == normalize_key_spec(lemmas@[j].lemma@),
{
    let mut r: Vec<Vec<char>> = Vec::new();
    let mut i: usize = 0;
    while i < lemmas.len()
        invariant
            i <= lemmas@.len(),
            r@.len() == i,
            forall|j: int| 0 <= j < i ==> (#[trigger] r@[j])@ == normalize_key_spec(lemmas@[j].lemma@),
        decreases lemmas@.len() - i,
    {
        let lv = chars_of(lemmas[i].lemma.as_str());
        r.push(normalize_key_chars(&lv));
        i = i + 1;
    }
    r
}

/// Builds warm-up preview cards for words the learner does not know yet:
/// content words the model reports using in the session's exercises that
/// either have no lemma row in `existing_lemmas` or whose row was never
/// answered correctly (`correct_uses == 0`). The word must appear in a
/// generated exercise's target-language sentence, checked against its
/// surface form (or its lemma when the surface is missing); function words
/// and entries without translation are skipped; repeated lemmas are taken
/// once. For a word with an existing row the card carries that row's id
/// and falls back to its stored POS, CEFR level and translation. Every card
/// is `New`.
pub fn new_word_items(
    existing_lemmas: &[Lemma],
    exercises: &[Exercise],
    raw: Vec<RawVocabularyItem>,
) -> (r: Vec<WarmupItem>)
    ensures
        warmup_views(r@) == new_word_items_spec(
            existing_lemmas@,
            exercise_tokens_spec(exercises@),
            raw@,
        ),
{
    let ghost tokens_spec = exercise_tokens_spec(exercises@);
    let tokens = exercise_tokens(exercises);
    let keys = lemma_keys(existing_lemmas);
    let mut seen: Vec<Vec<char>> = Vec::new();
    let mut out: Vec<WarmupItem> = Vec::new();
    let mut i: usize = 0;
    while i < raw.len()
        invariant
            i <= raw@.len(),
            views(tokens@) == tokens_spec,
            keys@.len() == existing_lemmas@.len(),
            forall|j: int|
                0 <= j < keys@.len() ==> (#[trigger] keys@[j])@ == normalize_key_spec(
                    existing_lemmas@[j].lemma@,
                ),
            views(seen@) == vocab_seen_keys(raw@.subrange(0, i as int)),
            warmup_views(out@) == new_word_items_spec(
                existing_lemmas@,
                tokens_spec,
                raw@.subrange(0, i as int),
            ),
        decreases raw@.len() - i,
    {
        let item = &raw[i];
        proof {
            let pre = raw@.subrange(0, i + 1);
            assert(pre.drop_last() =~= raw@.subrange(0, i as int));
            assert(pre.last() == raw@[i as int]);
        }
        let lv = chars_of(item.lemma.as_str());
        let lt = trim_chars(&lv);
        let key = normalize_key_chars(&lt);
        let ghost card = new_word_card(existing_lemmas@, tokens_spec, *item);
        if key.len() > 0 {
            let was_seen = contains_word(&seen, &key);
            let ghost kv = key@;
            let ghost seen_before = views(seen@);
            seen.push(key.clone());
            assert(views(seen@) =~= seen_before.push(kv));
            if !was_seen {
                let ex = last_lemma_index(&keys, &key, Ghost(existing_lemmas@));
                let known = match ex {
                    Some(k) => existing_lemmas[k].correct_uses > 0,
                    None => false,
                };
                if !known {
                    let pos_str = match &item.pos {
                        Some(p) => copy_str(p.as_str()),
                        None => String::new(),
                    };
                    if is_content_pos(pos_str.as_str()) {
                        let sv = chars_of(item.surface.as_str());
                        let st = trim_chars(&sv);
                        let sk = normalize_key_chars(&st);
                        let appears = if sk.len() == 0 {
                            contains_word(&tokens, &key)
                        } else {
                            contains_word(&tokens, &sk)
                        };
                        if appears {
                            let translation = match non_empty(copy_opt(&item.translation)) {
                                Some(t) => Some(t),
                                None => match ex {
                                    Some(k) => non_empty(
                                        Some(copy_str(existing_lemmas[k].translation.as_str())),
                                    ),
                                    None => None,
                                },
                            };
                            if let Some(t) = translation {
                                let pos = match non_empty(copy_opt(&item.pos)) {
                                    Some(p) => Some(p),
                                    None => match ex {
                                        Some(k) => non_empty(
                                            Some(copy_str(existing_lemmas[k].pos.as_str())),
                                        ),
                                        None => None,
                                    },
                                };
                                let cefr_level = match non_empty(copy_opt(&item.cefr_level)) {
                                    Some(c) => Some(c),
                                    None => match ex {
                                        Some(k) => copy_opt(&existing_lemmas[k].cefr_level),
                                        None => None,
                                    },
                                };
                                let lemma_id = match ex {
                                    Some(k) => Some(copy_str(existing_lemmas[k].id.as_str())),
                                    None => None,
                                };
                                let w = WarmupItem {
                                    lemma_id,
                                    lemma: copy_str(item.lemma.as_str()),
                                    pos,
                                    cefr_level,
                                    translation: t,
                                    example: None,
                                    kind: WarmupKind::New,
                                };
                                assert(card == Some(w@));
                                let ghost before = warmup_views(out@);
                                out.push(w);
                                assert(warmup_views(out@) =~= before.push(w@));
                            } else {
                                assert(card is None);
                            }
                        } else {
                            assert(card is None);
                        }
                    } else {
                        assert(card is None);
                    }
                } else {
                    assert(card is None);
                }
            }
        }
        i = i + 1;
    }
    assert(raw@.subrange(0, raw@.len() as int) =~= raw@);
    out
}

/// The placeholder replacing the answer in a cloze sentence.
pub open spec fn cloze_blank() -> Seq<char> {
    "_____"@
}

/// Scans `s` from `i` for the first maximal run of alphanumeric characters
/// whose key (see `normalize_key_spec`) is `key`; `start` is where the run
/// being scanned began. Returns the run's bounds.
pub open spec fn token_match_from(s: Seq<char>, key: Seq<char>, i: int, start: Option<int>) -> Option<
    (int, int),
>
    decreases s.len() - i,
{
    if i < 0 || i >= s.len() {
        match start {
            Some(st) => if 0 <= st <= s.len() && normalize_key_spec(s.subrange(st, s.len() as int))
                == key {
                Some((st, s.len() as int))
            } else {
                None
            },
            None => None,
        }
    } else if is_alphanumeric(s[i]) {
        token_match_from(
            s,
            key,
            i + 1,
            if start is Some {
                start
            } else {
                Some(i)
            },
        )
    } else {
        match start {
            Some(st) => if 0 <= st <= i && normalize_key_spec(s.subrange(st, i)) == key {
                Some((st, i))
            } else {
                token_match_from(s, key, i + 1, None)
            },
            None => token_match_from(s, key, i + 1, None),
        }
    }
}

/// `sentence` with its first word whose key is `answer_key` replaced by
/// the placeholder; `None` when no word has that key.
pub open spec fn blank_answer_spec(sentence: Seq<char>, answer_key: Seq<char>) -> Option<Seq<char>> {
    match token_match_from(sentence, answer_key, 0, None) {
        Some((a, b)) => Some(
            sentence.subrange(0, a) + cloze_blank() + sentence.subrange(b, sentence.len() as int),
        ),
        None => None,
    }
}

fn blank_at(s: &Vec<char>, a: usize, b: usize) -> (r: String)
    requires
        a <= b <= s@.len(),
    ensures
        r@ == s@.subrange(0, a as int) + cloze_blank() + s@.subrange(b as int, s@.len() as int),
{
    let mut r = crate::text::substring(s, 0, a);
    push_str(&mut r, "_____");
    let tail = crate::text::substring(s, b, s.len());
    push_str(&mut r, tail.as_str());
    r
}

/// Replaces the first word of `sentence` (a maximal run of alphanumeric
/// characters) whose `normalize_key` equals `answer_key` with the
/// placeholder `_____`. `None` when the answer does not appear as a word:
/// the item must then be dropped as a probable hallucination.
pub fn blank_answer(sentence: &Vec<char>, answer_key: &Vec<char>) -> (r: Option<String>)
    ensures
        opt_seq(r) == blank_answer_spec(sentence@, answer_key@),
{
    let n = sentence.len();
    let mut token_start: Option<usize> = None;
    let mut i: usize = 0;
    while i < n
        invariant
            n == sentence@.len(),
            i <= n,
            token_start matches Some(st) ==> st < i,
            token_match_from(sentence@, answer_key@, 0, None) == token_match_from(
                sentence@,
                answer_key@,
                i as int,
                match token_start {
                    Some(st) => Some(st as int),
                    None => None,
                },
            ),
        decreases n - i,
    {
        let c = sentence[i];
        if crate::text::char_is_alphanumeric(c) {
            if token_start.is_none() {
                token_start = Some(i);
            }
        } else if let Some(start) = token_start {
            token_start = None;
            let word = crate::text::substring(sentence, start, i);
            let wk = normalize_key(word.as_str());
            let wkv = chars_of(wk.as_str());
            if seq_eq(&wkv, answer_key) {
                return Some(blank_at(sentence, start, i));
            }
        }
        i = i + 1;
    }
    if let Some(start) = token_start {
        let word = crate::text::substring(sentence, start, n);
        let wk = normalize_key(word.as_str());
        let wkv = chars_of(wk.as_str());
        if seq_eq(&wkv, answer_key) {
            return Some(blank_at(sentence, start, n));
        }
    }
    None
}

/// The lemma a cloze entry's key refers to: the last existing lemma with
/// that key, else the last forced lemma with it.
pub open spec fn cloze_lookup(existing: Seq<Lemma>, forced: Seq<Lemma>, key: Seq<char>) -> Option<
    Lemma,
> {
    match last_lemma_with_key(existing, key) {
        Some(k) => Some(existing[k]),
        None => match last_lemma_with_key(forced, key) {
            Some(k) => Some(forced[k]),
            None => None,
        },
    }
}

/// The key a raw cloze entry is looked up by.
pub open spec fn cloze_raw_key(item: RawClozeItem) -> Seq<char> {
    normalize_key_spec(trim_spec(item.lemma@))
}

/// The keys of the raw cloze entries that have one, in order.
pub open spec fn cloze_seen_keys(raw: Seq<RawClozeItem>) -> Seq<Seq<char>>
    decreases raw.len(),
{
    if raw.len() == 0 {
        Seq::empty()
    } else {
        let rest = cloze_seen_keys(raw.drop_last());
        let k = cloze_raw_key(raw.last());
        if k.len() > 0 {
            rest.push(k)
        } else {
            rest
        }
    }
}

/// The options of a cloze item with their keys: the answer first, then
/// each trimmed distractor whose key is non-empty and new.
pub open spec fn cloze_options(answer: Seq<char>, answer_key: Seq<char>, distractors: Seq<
    Seq<char>,
>) -> (Seq<Seq<char>>, Seq<Seq<char>>)
    decreases distractors.len(),
{
    if distractors.len() == 0 {
        (seq![answer], seq![answer_key])
    } else {
        let (opts, keys) = cloze_options(answer, answer_key, distractors.drop_last());
        let d = trim_spec(distractors.last());
        let dk = normalize_key_spec(d);
        if dk.len() == 0 || keys.contains(dk) {
            (opts, keys)
        } else {
            (opts.push(d), keys.push(dk))
        }
    }
}

/// The cloze item for one raw entry, or `None` when the word is known (its
/// lemma answered correctly before), the answer is empty or absent from the
/// sentence, or there are not 3 or 4 distinct options.
pub open spec fn cloze_card(existing: Seq<Lemma>, forced: Seq<Lemma>, item: RawClozeItem) -> Option<
    ClozeItemView,
> {
    let ex = cloze_lookup(existing, forced, cloze_raw_key(item));
    let answer = trim_spec(item.answer@);
    let answer_key = normalize_key_spec(answer);
    let sentence = blank_answer_spec(trim_spec(item.sentence@), answer_key);
    let options = cloze_options(answer, answer_key, item.distractors.deep_view()).0;
    if ex matches Some(l) && l.correct_uses > 0 {
        None
    } else if answer_key.len() == 0 {
        None
    } else if sentence is None {
        None
    } else if !(3 <= options.len() <= 4) {
        None
    } else {
        Some(
            ClozeItemView {
                lemma_id: match ex {
                    Some(l) => Some(l.id@),
                    None => None,
                },
                lemma: item.lemma@,
                pos: or_else(
                    non_empty_spec(opt_seq(item.pos)),
                    match ex {
                        Some(l) => non_empty_spec(Some(l.pos@)),
                        None => None,
                    },
                ),
                cefr_level: or_else(
                    non_empty_spec(opt_seq(item.cefr_level)),
                    match ex {
                        Some(l) => opt_seq(l.cefr_level),
                        None => None,
                    },
                ),
                sentence: sentence->0,
                answer,
                options,
                translation: match non_empty_spec(opt_seq(item.translation)) {
                    Some(t) => t,
                    None => Seq::empty(),
                },
            },
        )
    }
}

proof fn lemma_cloze_options_keys(answer: Seq<char>, answer_key: Seq<char>, distractors: Seq<Seq<char>>)
    requires
        answer_key == normalize_key_spec(answer),
    ensures
        ({
            let (opts, keys) = cloze_options(answer, answer_key, distractors);
            &&& opts.len() == keys.len()
            &&& opts.len() >= 1
            &&& opts[0] == answer
            &&& forall|i: int| 0 <= i < keys.len() ==> #[trigger] keys[i] == normalize_key_spec(opts[i])
            &&& forall|i: int, j: int| 0 <= i < j < keys.len() ==> #[trigger] keys[i] != #[trigger] keys[j]
        }),
    decreases distractors.len(),
{
    if distractors.len() > 0 {
        lemma_cloze_options_keys(answer, answer_key, distractors.drop_last());
        let (opts, keys) = cloze_options(answer, answer_key, distractors.drop_last());
        let d = trim_spec(distractors.last());
        let dk = normalize_key_spec(d);
        if !(dk.len() == 0 || keys.contains(dk)) {
            let o2 = opts.push(d);
            let k2 = keys.push(dk);
            assert forall|i: int| 0 <= i < k2.len() implies #[trigger] k2[i] == normalize_key_spec(o2[i]) by {
                if i < keys.len() {
                    assert(k2[i] == keys[i] && o2[i] == opts[i]);
                }
            }
            assert forall|i: int, j: int| 0 <= i < j < k2.len() implies #[trigger] k2[i] != #[trigger] k2[j] by {
                if j == keys.len() {
                    assert(k2[i] == keys[i]);
                    if keys[i] == dk {
                        assert(keys.contains(dk));
                    }
                } else {
                    assert(k2[i] == keys[i] && k2[j] == keys[j]);
                }
            }
        }
    }
}

/// Every cloze item offers three or four options: the trimmed answer
/// first, then distractors, no two of which (answer included) compare
/// equal under `normalize_key`; its answer has a non-empty key.
pub proof fn lemma_cloze_items_have_three_or_four_options(
    existing: Seq<Lemma>,
    forced: Seq<Lemma>,
    raw: Seq<RawClozeItem>,
)
    ensures
        forall|k: int|
            0 <= k < cloze_items_spec(existing, forced, raw).len() ==> {
                let item = #[trigger] cloze_items_spec(existing, forced, raw)[k];
                &&& 3 <= item.options.len() <= 4
                &&& item.options[0] == item.answer
                &&& normalize_key_spec(item.answer).len() > 0
                &&& forall|i: int, j: int|
                    0 <= i < j < item.options.len() ==> normalize_key_spec(#[trigger] item.options[i])
                        != normalize_key_spec(#[trigger] item.options[j])
            },
    decreases raw.len(),
{
    if raw.len() > 0 {
        let prev = raw.drop_last();
        lemma_cloze_items_have_three_or_four_options(existing, forced, prev);
        let rest = cloze_items_spec(existing, forced, prev);
        let res = cloze_items_spec(existing, forced, raw);
        let item = raw.last();
        let answer = trim_spec(item.answer@);
        let answer_key = normalize_key_spec(answer);
        lemma_cloze_options_keys(answer, answer_key, item.distractors.deep_view());
        let (opts, keys) = cloze_options(answer, answer_key, item.distractors.deep_view());
        assert forall|k: int| 0 <= k < res.len() implies {
            let it = #[trigger] res[k];
            &&& 3 <= it.options.len() <= 4
            &&& it.options[0] == it.answer
            &&& normalize_key_spec(it.answer).len() > 0
            &&& forall|i: int, j: int|
                0 <= i < j < it.options.len() ==> normalize_key_spec(#[trigger] it.options[i])
                    != normalize_key_spec(#[trigger] it.options[j])
        } by {
            if k < rest.len() {
                assert(res[k] == rest[k]);
            } else {
                let it = res[k];
                assert(it == cloze_card(existing, forced, item)->0);
                assert(it.options == opts);
                assert forall|i: int, j: int| 0 <= i < j < it.options.len() implies normalize_key_spec(
                    #[trigger] it.options[i],
                ) != normalize_key_spec(#[trigger] it.options[j]) by {
                    assert(keys[i] == normalize_key_spec(opts[i]));
                    assert(keys[j] == normalize_key_spec(opts[j]));
                }
            }
        }
    }
}

/// What `cloze_items` returns: for each raw entry in order whose key is
/// non-empty and was not seen in an earlier entry, its item when it has
/// one (see `cloze_card`).
pub open spec fn cloze_items_spec(existing: Seq<Lemma>, forced: Seq<Lemma>, raw: Seq<RawClozeItem>) -> Seq<
    ClozeItemView,
>
    decreases raw.len(),
{
    if raw.len() == 0 {
        Seq::empty()
    } else {
        let rest = cloze_items_spec(existing, forced, raw.drop_last());
        let item = raw.last();
        let key = cloze_raw_key(item);
        if key.len() > 0 && !cloze_seen_keys(raw.drop_last()).contains(key) && cloze_card(
            existing,
            forced,
            item,
        ) is Some {
            rest.push(cloze_card(existing, forced, item)->0)
        } else {
            rest
        }
    }
}

fn build_options(answer: &Vec<char>, answer_key: &Vec<char>, distractors: &Vec<String>) -> (r: Vec<
    String,
>)
    ensures
        r.deep_view() == cloze_options(answer@, answer_key@, distractors.deep_view()).0,
{
    let mut options: Vec<String> = Vec::new();
    let mut option_keys: Vec<Vec<char>> = Vec::new();
    options.push(string_from_chars(answer.as_slice()));
    option_keys.push(answer_key.clone());
    proof {
        assert(options.deep_view() =~= seq![answer@]);
        assert(views(option_keys@) =~= seq![answer_key@]);
        assert(distractors.deep_view().subrange(0, 0) =~= Seq::<Seq<char>>::empty());
    }
    let mut i: usize = 0;
    while i < distractors.len()
        invariant
            i <= distractors@.len(),
            (options.deep_view(), views(option_keys@)) == cloze_options(
                answer@,
                answer_key@,
                distractors.deep_view().subrange(0, i as int),
            ),
        decreases distractors@.len() - i,
    {
        proof {
            let pre = distractors.deep_view().subrange(0, i + 1);
            assert(pre.drop_last() =~= distractors.deep_view().subrange(0, i as int));
            assert(pre.last() == distractors@[i as int]@);
        }
        let dv = chars_of(distractors[i].as_str());
        let d = trim_chars(&dv);
        let dk = normalize_key_chars(&d);
        if dk.len() > 0 && !contains_word(&option_keys, &dk) {
            let ghost before_o = options.deep_view();
            let ghost before_k = views(option_keys@);
            let ghost dvv = d@;
            let ghost dkv = dk@;
            options.push(string_from_chars(d.as_slice()));
            option_keys.push(dk);
            assert(options.deep_view() =~= before_o.push(dvv));
            assert(views(option_keys@) =~= before_k.push(dkv));
        }
        i = i + 1;
    }
    assert(distractors.deep_view().subrange(0, distractors@.len() as int)
        =~= distractors.deep_view());
    options
}

/// Builds cloze (word-bank) items from the model's raw `cloze` output. Only
/// words without positive learning progress get an item: no lemma row at
/// all (matched by `normalize_key` of the lemma), or a row with
/// `correct_uses == 0`; forced lemmas count as rows too, existing rows
/// winning over forced ones. The trimmed answer (compared via
/// `normalize_key`) must appear as a word of the trimmed sentence, whose
/// first matching word is replaced with `_____`; the item is dropped
/// otherwise. The options are the answer plus the distractors, deduplicated
/// via `normalize_key`; items without 3 or 4 options are dropped. Items are
/// deduplicated by lemma key (first wins). An item of an existing row
/// carries its id and falls back to its stored POS and CEFR level.
pub fn cloze_items(existing_lemmas: &[Lemma], forced_vocabulary: &[Lemma], raw: Vec<RawClozeItem>) -> (r:
    Vec<ClozeItem>)
    ensures
        cloze_views(r@) == cloze_items_spec(existing_lemmas@, forced_vocabulary@, raw@),
{
    let ekeys = lemma_keys(existing_lemmas);
    let fkeys = lemma_keys(forced_vocabulary);
    let mut seen: Vec<Vec<char>> = Vec::new();
    let mut out: Vec<ClozeItem> = Vec::new();
    let mut i: usize = 0;
    while i < raw.len()
        invariant
            i <= raw@.len(),
            ekeys@.len() == existing_lemmas@.len(),
            forall|j: int|
                0 <= j < ekeys@.len() ==> (#[trigger] ekeys@[j])@ == normalize_key_spec(
                    existing_lemmas@[j].lemma@,
                ),
            fkeys@.len() == forced_vocabulary@.len(),
            forall|j: int|
                0 <= j < fkeys@.len() ==> (#[trigger] fkeys@[j])@ == normalize_key_spec(
                    forced_vocabulary@[j].lemma@,
                ),
            views(seen@) == cloze_seen_keys(raw@.subrange(0, i as int)),
            cloze_views(out@) == cloze_items_spec(
                existing_lemmas@,
                forced_vocabulary@,
                raw@.subrange(0, i as int),
            ),
        decreases raw@.len() - i,
    {
        let item = &raw[i];
        proof {
            let pre = raw@.subrange(0, i + 1);
            assert(pre.drop_last() =~= raw@.subrange(0, i as int));
            assert(pre.last() == raw@[i as int]);
        }
        let lv = chars_of(item.lemma.as_str());
        let lt = trim_chars(&lv);
        let key = normalize_key_chars(&lt);
        let ghost card = cloze_card(existing_lemmas@, forced_vocabulary@, *item);
        if key.len() > 0 {
            let was_seen = contains_word(&seen, &key);
            let ghost kv = key@;
            let ghost seen_before = views(seen@);
            seen.push(key.clone());
            assert(views(seen@) =~= seen_before.push(kv));
            if !was_seen {
                let ex_e = last_lemma_index(&ekeys, &key, Ghost(existing_lemmas@));
                let ex_f = last_lemma_index(&fkeys, &key, Ghost(forced_vocabulary@));
                let ex: Option<&Lemma> = match ex_e {
                    Some(k) => Some(&existing_lemmas[k]),
                    None => match ex_f {
                        Some(k) => Some(&forced_vocabulary[k]),
                        None => None,
                    },
                };
                assert(match ex {
                    Some(l) => cloze_lookup(existing_lemmas@, forced_vocabulary@, kv) == Some(*l),
                    None => cloze_lookup(existing_lemmas@, forced_vocabulary@, kv) is None,
                });
                let known = match ex {
                    Some(l) => l.correct_uses > 0,
                    None => false,
                };
                if known {
                    assert(card is None);
                } else {
                    let av = chars_of(item.answer.as_str());
                    let answer = trim_chars(&av);
                    let answer_key = normalize_key_chars(&answer);
                    if answer_key.len() == 0 {
                        assert(card is None);
                    } else {
                        let sv = chars_of(item.sentence.as_str());
                        let st = trim_chars(&sv);
                        match blank_answer(&st, &answer_key) {
                            None => {
                                assert(card is None);
                            },
                            Some(sentence) => {
                                let options = build_options(&answer, &answer_key, &item.distractors);
                                if options.len() < 3 || options.len() > 4 {
                                    assert(card is None);
                                } else {
                                    let pos = match non_empty(copy_opt(&item.pos)) {
                                        Some(p) => Some(p),
                                        None => match ex {
                                            Some(l) => non_empty(Some(copy_str(l.pos.as_str()))),
                                            None => None,
                                        },
                                    };
                                    let cefr_level = match non_empty(copy_opt(&item.cefr_level)) {
                                        Some(c) => Some(c),
                                        None => match ex {
                                            Some(l) => copy_opt(&l.cefr_level),
                                            None => None,
                                        },
                                    };
                                    let lemma_id = match ex {
                                        Some(l) => Some(copy_str(l.id.as_str())),
                                        None => None,
                                    };
                                    let translation = match non_empty(copy_opt(&item.translation)) {
                                        Some(t) => t,
                                        None => String::new(),
                                    };
                                    let c = ClozeItem {
                                        lemma_id,
                                        lemma: copy_str(item.lemma.as_str()),
                                        pos,
                                        cefr_level,
                                        sentence,
                                        answer: string_from_chars(answer.as_slice()),
                                        options,
                                        translation,
                                    };
                                    assert(card == Some(c@));
                                    let ghost before = cloze_views(out@);
                                    out.push(c);
                                    assert(cloze_views(out@) =~= before.push(c@));
                                }
                            },
                        }
                    }
                }
            }
        }
        i = i + 1;
    }
    assert(raw@.subrange(0, raw@.len() as int) =~= raw@);
    out
}

/// The segments of a feats key, each once: its non-empty pieces between
/// `|`, in order of first appearance.
pub open spec fn feats_segments(key: Seq<char>) -> Seq<Seq<char>> {
    dedup_seq(nonempty_pieces(split_pieces(key, Sep::Char('|'))))
}

fn feats_segment_list(key: &str) -> (r: Vec<Vec<char>>)
    ensures
        views(r@) == feats_segments(key@),
{
    let kv = chars_of(key);
    let pieces = split_by(&kv, Sep::Char('|'));
    let mut kept: Vec<Vec<char>> = Vec::new();
    let mut i: usize = 0;
    while i < pieces.len()
        invariant
            i <= pieces@.len(),
            views(pieces@) == split_pieces(key@, Sep::Char('|')),
            views(kept@) == nonempty_pieces(views(pieces@).take(i as int)),
        decreases pieces@.len() - i,
    {
        let ghost before = views(kept@);
        proof {
            let pre = views(pieces@).take(i + 1);
            assert(pre.drop_last() =~= views(pieces@).take(i as int));
            assert(pre.last() == pieces@[i as int]@);
        }
        if pieces[i].len() > 0 {
            let piece = pieces[i].clone();
            kept.push(piece);
            assert(views(kept@) =~= before.push(pieces@[i as int]@));
        }
        i = i + 1;
    }
    assert(views(pieces@).take(pieces@.len() as int) =~= views(pieces@));
    dedup_words(&kept)
}

/// The similarity of two feats keys as a fraction (numerator, denominator):
/// one when either segment set contains the other (two empty keys
/// included), else the Jaccard index of the two sets.
pub open spec fn feats_similarity_frac(a: Seq<char>, b: Seq<char>) -> (nat, nat) {
    let sa = feats_segments(a);
    let sb = feats_segments(b);
    if all_in(sa, sb) || all_in(sb, sa) {
        (1, 1)
    } else {
        let common = count_in(sa, sb);
        (common, (sa.len() + sb.len() - common) as nat)
    }
}

/// Whether two feats keys are similar enough to be one form: a similarity
/// of at least 0.8.
pub open spec fn feats_mergeable(a: Seq<char>, b: Seq<char>) -> bool {
    5 * feats_similarity_frac(a, b).0 >= 4 * feats_similarity_frac(a, b).1
}

/// Whether the similarity `x` is at least the similarity `y`.
pub open spec fn similarity_at_least(x: (nat, nat), y: (nat, nat)) -> bool {
    x.0 * y.1 >= y.0 * x.1
}

proof fn lemma_split_pieces_room(s: Seq<char>, d: char)
    ensures
        split_pieces(s, Sep::Char(d)).len() > 0,
        split_pieces(s, Sep::Char(d)).last().len() == 0 ==> 2 * nonempty_pieces(
            split_pieces(s, Sep::Char(d)),
        ).len() + 1 <= s.len() + 1,
        split_pieces(s, Sep::Char(d)).last().len() > 0 ==> 2 * nonempty_pieces(
            split_pieces(s, Sep::Char(d)),
        ).len() <= s.len() + 1,
    decreases s.len(),
{
    if s.len() == 0 {
        let p0 = split_pieces(s, Sep::Char(d));
        assert(p0 == seq![Seq::<char>::empty()]);
        assert(p0.drop_last() =~= Seq::<Seq<char>>::empty());
        assert(nonempty_pieces(p0.drop_last()).len() == 0);
    } else {
        let prev = s.drop_last();
        lemma_split_pieces_room(prev, d);
        let p = split_pieces(prev, Sep::Char(d));
        let c = s.last();
        if c != d {
            let q = p.update(p.len() - 1, p.last().push(c));
            assert(q.drop_last() =~= p.drop_last());
            assert(q.last() == p.last().push(c));
            if p.last().len() == 0 {
                assert(nonempty_pieces(p) == nonempty_pieces(p.drop_last()));
            } else {
                assert(nonempty_pieces(p) == nonempty_pieces(p.drop_last()).push(p.last()));
            }
        } else {
            let q = p.push(Seq::<char>::empty());
            assert(q.drop_last() =~= p);
        }
    }
}

proof fn lemma_dedup_seq_len(s: Seq<Seq<char>>)
    ensures
        dedup_seq(s).len() <= s.len(),
    decreases s.len(),
{
    if s.len() > 0 {
        lemma_dedup_seq_len(s.drop_last());
    }
}

/// A key has at most half as many segments as characters, rounded up.
proof fn lemma_feats_segments_len(key: Seq<char>)
    ensures
        2 * feats_segments(key).len() <= key.len() + 1,
{
    lemma_split_pieces_room(key, '|');
    lemma_dedup_seq_len(nonempty_pieces(split_pieces(key, Sep::Char('|'))));
}

/// The similarity of two feats keys as an exact fraction (numerator,
/// denominator); see `feats_similarity_frac`.
pub fn feats_similarity_fraction(a: &str, b: &str) -> (r: (u128, u128))
    ensures
        r.0 == feats_similarity_frac(a@, b@).0,
        r.1 == feats_similarity_frac(a@, b@).1,
        r.0 <= 0x8000_0000_0000_0000,
        r.1 <= 0x1_0000_0000_0000_0000,
{
    let av = chars_of(a);
    let bv = chars_of(b);
    let na = av.len();
    let nb = bv.len();
    let sa = feats_segment_list(a);
    let sb = feats_segment_list(b);
    proof {
        lemma_feats_segments_len(a@);
        lemma_feats_segments_len(b@);
    }
    if all_words_in(&sa, &sb) || all_words_in(&sb, &sa) {
        return (1, 1);
    }
    let common = count_words_in(&sa, &sb);
    proof {
        lemma_count_in_le(views(sa@), views(sb@));
    }
    let union: u128 = sa.len() as u128 + sb.len() as u128 - common as u128;
    (common as u128, union)
}

/// A form that `find_form_fuzzy` may merge with: same lemma, same
/// normalized surface, mergeable feats.
pub open spec fn fuzzy_candidate(f: Form, lemma_id: Seq<char>, surface_key: Seq<char>, feats_key: Seq<char>) -> bool {
    &&& f.lemma_id@ == lemma_id
    &&& normalize_key_spec(f.surface@) == surface_key
    &&& feats_mergeable(f.feats_key@, feats_key)
}

/// The candidate with the highest similarity, the last one among equals
/// (the choice of `Iterator::max_by`).
pub open spec fn fuzzy_best(existing: Seq<Form>, lemma_id: Seq<char>, surface_key: Seq<char>, feats_key: Seq<char>) -> Option<int>
    decreases existing.len(),
{
    if existing.len() == 0 {
        None
    } else {
        let prev = fuzzy_best(existing.drop_last(), lemma_id, surface_key, feats_key);
        let i = existing.len() - 1;
        if fuzzy_candidate(existing[i], lemma_id, surface_key, feats_key) {
            match prev {
                Some(p) => if similarity_at_least(
                    feats_similarity_frac(existing[i].feats_key@, feats_key),
                    feats_similarity_frac(existing[p].feats_key@, feats_key),
                ) {
                    Some(i)
                } else {
                    Some(p)
                },
                None => Some(i),
            }
        } else {
            prev
        }
    }
}

/// Index of the existing form matching `(lemma_id, surface, feats_key)`:
/// the exact `find_form` match when there is one, else the same-lemma form
/// with the same normalized surface whose feats are most similar, with a
/// similarity of at least 0.8 (e.g. an incomplete feats set from the
/// model). Similarities are compared as exact fractions.
pub fn find_form_fuzzy(existing: &[Form], lemma_id: &str, surface: &str, feats_key: &str) -> (r:
    Option<usize>)
    ensures
        (exists|j: int| 0 <= j < existing@.len() && form_matches(#[trigger] existing@[j], lemma_id@, surface@, feats_key@))
            ==> (r matches Some(i) && i < existing@.len() && form_matches(existing@[i as int], lemma_id@, surface@, feats_key@)
            && forall|j: int| 0 <= j < i ==> !form_matches(#[trigger] existing@[j], lemma_id@, surface@, feats_key@)),
        (forall|j: int| 0 <= j < existing@.len() ==> !form_matches(#[trigger] existing@[j], lemma_id@, surface@, feats_key@))
            ==> match r {
            Some(i) => fuzzy_best(existing@, lemma_id@, normalize_key_spec(surface@), feats_key@) == Some(i as int),
            None => fuzzy_best(existing@, lemma_id@, normalize_key_spec(surface@), feats_key@) is None,
        },
{
    if let Some(i) = find_form(existing, lemma_id, surface, feats_key) {
        return Some(i);
    }
    let sk = normalize_key(surface);
    let skv = chars_of(sk.as_str());
    let ghost skey = normalize_key_spec(surface@);
    let mut best: Option<usize> = None;
    let mut best_num: u128 = 0;
    let mut best_den: u128 = 0;
    let mut i: usize = 0;
    while i < existing.len()
        invariant
            i <= existing@.len(),
            skv@ == skey,
            skey == normalize_key_spec(surface@),
            best == (match fuzzy_best(existing@.take(i as int), lemma_id@, skey, feats_key@) {
                Some(p) => Some(p as usize),
                None => None::<usize>,
            }),
            fuzzy_best(existing@.take(i as int), lemma_id@, skey, feats_key@) matches Some(p) ==> 0 <= p < i,
            best matches Some(p) ==> best_num == feats_similarity_frac(existing@[p as int].feats_key@, feats_key@).0
                && best_den == feats_similarity_frac(existing@[p as int].feats_key@, feats_key@).1,
            best_num <= 0x8000_0000_0000_0000,
            best_den <= 0x1_0000_0000_0000_0000,
        decreases existing@.len() - i,
    {
        let f = &existing[i];
        proof {
            let pre = existing@.take(i + 1);
            assert(pre.drop_last() =~= existing@.take(i as int));
            assert(pre[i as int] == existing@[i as int]);
        }
        if str_eq(f.lemma_id.as_str(), lemma_id) {
            let fs = normalize_key(f.surface.as_str());
            let fsv = chars_of(fs.as_str());
            if seq_eq(&fsv, &skv) {
                let (num, den) = feats_similarity_fraction(f.feats_key.as_str(), feats_key);
                if 5 * num >= 4 * den {
                    proof {
                        assert(num * best_den <= 0x8000_0000_0000_0000 * 0x1_0000_0000_0000_0000)
                            by (nonlinear_arith)
                            requires
                                num <= 0x8000_0000_0000_0000,
                                best_den <= 0x1_0000_0000_0000_0000,
                        ;
                        assert(best_num * den <= 0x8000_0000_0000_0000 * 0x1_0000_0000_0000_0000)
                            by (nonlinear_arith)
                            requires
                                best_num <= 0x8000_0000_0000_0000,
                                den <= 0x1_0000_0000_0000_0000,
                        ;
                    }
                    let replace = match best {
                        Some(_) => num * best_den >= best_num * den,
                        None => true,
                    };
                    if replace {
                        best = Some(i);
                        best_num = num;
                        best_den = den;
                    }
                }
            }
        }
        i = i + 1;
    }
    assert(existing@.take(existing@.len() as int) =~= existing@);
    best
}

/// The bit pattern of the double 80.0: from this mastery on a lemma is
/// known.
pub const COMPLETED_THRESHOLD_BITS: u64 = 0x4054_0000_0000_0000u64;

/// The bit pattern of the double 50.0: from this mastery on a lemma is
/// being practised.
pub const MASTERY_THRESHOLD_BITS: u64 = 0x4049_0000_0000_0000u64;

/// `a >= b` on the doubles with bit patterns `a` and `b`: never with a NaN.
pub open spec fn double_at_least(a: u64, b: u64) -> bool {
    !is_nan_bits(a) && !is_nan_bits(b) && !double_greater(b, a)
}

pub(crate) fn at_least(a: u64, b: u64) -> (r: bool)
    ensures
        r == double_at_least(a, b),
{
    let a_nan = (a & 0x7FF0_0000_0000_0000u64) == 0x7FF0_0000_0000_0000u64 && (a
        & 0x000F_FFFF_FFFF_FFFFu64) != 0;
    let b_nan = (b & 0x7FF0_0000_0000_0000u64) == 0x7FF0_0000_0000_0000u64 && (b
        & 0x000F_FFFF_FFFF_FFFFu64) != 0;
    !a_nan && !b_nan && !score_greater(b, a)
}

/// The status of a lemma from its mastery (a double, given by its bit
/// pattern) and this session's use: known from a mastery of 80, practised
/// from 50 or once used, else new; an error in the session caps it at
/// practised.
pub open spec fn derive_status_spec(mastery_bits: u64, had_error: bool, practiced: bool) -> i32 {
    let base = if double_at_least(mastery_bits, COMPLETED_THRESHOLD_BITS) {
        STATUS_KNOWN
    } else if double_at_least(mastery_bits, MASTERY_THRESHOLD_BITS) || practiced {
        STATUS_PRACTICING
    } else {
        STATUS_NEW
    };
    if had_error && base > STATUS_PRACTICING {
        STATUS_PRACTICING
    } else {
        base
    }
}

/// Derives a lemma's status.
pub fn derive_status(mastery_bits: u64, had_error: bool, practiced: bool) -> (r: i32)
    ensures
        r == derive_status_spec(mastery_bits, had_error, practiced),
{
    let base = if at_least(mastery_bits, COMPLETED_THRESHOLD_BITS) {
        STATUS_KNOWN
    } else if at_least(mastery_bits, MASTERY_THRESHOLD_BITS) || practiced {
        STATUS_PRACTICING
    } else {
        STATUS_NEW
    };
    if had_error && base > STATUS_PRACTICING {
        STATUS_PRACTICING
    } else {
        base
    }
}

/// The session score, in points, of one use of a word by the learner: 0
/// when the word was misused, 30 when it was used well but misspelled,
/// 100 otherwise.
pub fn vocabulary_session_score(spelling_ok: bool, usage_ok: bool) -> (r: u32)
    ensures
        r == (if !usage_ok {
            0u32
        } else if !spelling_ok {
            30u32
        } else {
            100u32
        }),
{
    if !usage_ok {
        0
    } else if !spelling_ok {
        30
    } else {
        100
    }
}

/// An error in the session keeps a lemma from being known, and a lemma
/// used in the session is never new.
pub proof fn lemma_status_bounds(mastery_bits: u64, had_error: bool, practiced: bool)
    ensures
        had_error ==> derive_status_spec(mastery_bits, had_error, practiced) <= STATUS_PRACTICING,
        practiced ==> derive_status_spec(mastery_bits, had_error, practiced) >= STATUS_PRACTICING,
{
}

} // verus!

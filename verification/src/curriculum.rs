//! Curriculum topics: CEFR levels and difficulties, grammar domains,
//! topic ids and the removal of abstract or duplicate topics.
use vstd::prelude::*;

use crate::learning_items::{duplicate_name_index, is_duplicate_name_spec, is_learning_item_name_spec, slugify, slugify_spec};
use crate::text::{
    all_ascii, ascii_upper, chars_of, first_non_ws, last_non_ws_end, lemma_first_non_ws_bounds,
    lemma_last_non_ws_bounds, occurs_at, trim_spec, white_space, contains_seq, contains_str, copy_str, has_prefix, lower_text, starts_with, str_eq,
    to_lowercase, to_uppercase, upper_text,
};
use crate::words::views;

verus! {

/// Version stamped on topics and curricula that do not state one.
pub const DEFAULT_VERSION: i32 = 1;

/// A curriculum topic.
#[derive(Debug, Clone, Default, PartialEq)]
pub struct Topic {
    pub id: String,
    pub name: String,
    pub description: String,
    pub difficulty: String,
    pub level: Option<String>,
    pub order: Option<i32>,
    pub tags: Vec<String>,
    pub target_lang: String,
    pub native_lang: String,
    pub version: i32,
    /// RFC3339 timestamp of the last local or synced modification; `None`
    /// means "unknown" (predates sync support) and sorts as the oldest.
    pub updated_at: Option<String>,
    /// RFC3339 tombstone marker; `Some` rows are hidden from reads and kept
    /// only so sync can propagate the deletion.
    pub deleted_at: Option<String>,
}

/// A whole curriculum for one language pair.
#[derive(Debug, Clone)]
pub struct Curriculum {
    pub version: i32,
    pub topics: Vec<Topic>,
    pub target_language: String,
    pub native_language: String,
}

/// The three coarse difficulty bands of topics.
#[derive(Debug, Clone, Copy, PartialEq, Eq, Structural)]
pub enum Difficulty {
    Beginner,
    Intermediate,
    Advanced,
}

/// The wire name of a difficulty.
pub open spec fn difficulty_name(d: Difficulty) -> Seq<char> {
    match d {
        Difficulty::Beginner => "beginner"@,
        Difficulty::Intermediate => "intermediate"@,
        Difficulty::Advanced => "advanced"@,
    }
}

impl Difficulty {
    /// The wire name of the difficulty.
    pub fn as_str(&self) -> (r: &'static str)
        ensures
            r@ == difficulty_name(*self),
    {
        match self {
            Difficulty::Beginner => "beginner",
            Difficulty::Intermediate => "intermediate",
            Difficulty::Advanced => "advanced",
        }
    }
}

/// Which band (0 for A1/A2, 1 for B1/B2, 2 for C1/C2) a CEFR level string
/// falls in, compared after uppercasing; `None` for anything else.
pub open spec fn cefr_band(level: Seq<char>) -> Option<u8> {
    let u = upper_text(level);
    if u == "A1"@ || u == "A2"@ {
        Some(0)
    } else if u == "B1"@ || u == "B2"@ {
        Some(1)
    } else if u == "C1"@ || u == "C2"@ {
        Some(2)
    } else {
        None
    }
}

fn cefr_band_exec(level: &str) -> (r: Option<u8>)
    ensures
        r == cefr_band(level@),
{
    let u = to_uppercase(level);
    let s = u.as_str();
    if str_eq(s, "A1") || str_eq(s, "A2") {
        Some(0)
    } else if str_eq(s, "B1") || str_eq(s, "B2") {
        Some(1)
    } else if str_eq(s, "C1") || str_eq(s, "C2") {
        Some(2)
    } else {
        None
    }
}

/// Target number of topics to generate for a single domain at a single
/// CEFR level: 4 for A levels, 5 for B levels, 6 for C levels, 4 otherwise.
/// Keeping the count small makes each model request fast.
pub fn target_topic_count(level: &str, _domain: &str) -> (r: usize)
    ensures
        r == match cefr_band(level@) {
            Some(1) => 5usize,
            Some(2) => 6usize,
            _ => 4usize,
        },
{
    match cefr_band_exec(level) {
        Some(1) => 5,
        Some(2) => 6,
        _ => 4,
    }
}

/// Target number of topics to generate for a whole CEFR level in one
/// request: 12 for A levels, 16 for B levels, 20 for C levels, 12
/// otherwise.
pub fn target_level_topic_count(level: &str) -> (r: usize)
    ensures
        r == match cefr_band(level@) {
            Some(1) => 16usize,
            Some(2) => 20usize,
            _ => 12usize,
        },
{
    match cefr_band_exec(level) {
        Some(1) => 16,
        Some(2) => 20,
        _ => 12,
    }
}

/// The difficulty of a CEFR level: "beginner" for A levels and anything
/// unknown, "intermediate" for B levels, "advanced" for C levels.
pub open spec fn cefr_to_difficulty_spec(level: Seq<char>) -> Seq<char> {
    match cefr_band(level) {
        Some(1) => "intermediate"@,
        Some(2) => "advanced"@,
        _ => "beginner"@,
    }
}

/// The difficulty name of a CEFR level (see `cefr_to_difficulty_spec`).
pub fn cefr_to_difficulty(level: &str) -> (r: &'static str)
    ensures
        r@ == cefr_to_difficulty_spec(level@),
{
    match cefr_band_exec(level) {
        Some(1) => "intermediate",
        Some(2) => "advanced",
        _ => "beginner",
    }
}

/// The number of a CEFR level (A1 = 1 ... C2 = 6), compared after
/// uppercasing.
pub open spec fn cefr_to_numeric_spec(level: Seq<char>) -> Option<i32> {
    let u = upper_text(level);
    if u == "A1"@ {
        Some(1)
    } else if u == "A2"@ {
        Some(2)
    } else if u == "B1"@ {
        Some(3)
    } else if u == "B2"@ {
        Some(4)
    } else if u == "C1"@ {
        Some(5)
    } else if u == "C2"@ {
        Some(6)
    } else {
        None
    }
}

/// The number of a CEFR level (A1 = 1 ... C2 = 6); `None` when the string
/// is no CEFR level.
pub fn cefr_to_numeric(level: &str) -> (r: Option<i32>)
    ensures
        r == cefr_to_numeric_spec(level@),
{
    let u = to_uppercase(level);
    let s = u.as_str();
    if str_eq(s, "A1") {
        Some(1)
    } else if str_eq(s, "A2") {
        Some(2)
    } else if str_eq(s, "B1") {
        Some(3)
    } else if str_eq(s, "B2") {
        Some(4)
    } else if str_eq(s, "C1") {
        Some(5)
    } else if str_eq(s, "C2") {
        Some(6)
    } else {
        None
    }
}

/// The entry level of a difficulty: A1, B1 or C1 for "beginner",
/// "intermediate" and "advanced" (exact spelling).
pub open spec fn difficulty_to_cefr_spec(difficulty: Seq<char>) -> Option<Seq<char>> {
    if difficulty == "beginner"@ {
        Some("A1"@)
    } else if difficulty == "intermediate"@ {
        Some("B1"@)
    } else if difficulty == "advanced"@ {
        Some("C1"@)
    } else {
        None
    }
}

/// A CEFR level written in upper case is its own upper-case form.
proof fn lemma_upper_level(level: Seq<char>)
    requires
        level.len() == 2,
        'A' <= level[0] <= 'C',
        '1' <= level[1] <= '2',
    ensures
        upper_text(level) == level,
{
    assert(all_ascii(level)) by {
        assert forall|i: int| 0 <= i < level.len() implies (#[trigger] level[i] as u32) < 128 by {
            if i == 0 {
                assert(level[0] as u32 <= 'C' as u32);
            } else {
                assert(level[1] as u32 <= '2' as u32);
            }
        }
    }
    assert(ascii_upper(level) =~= level);
}

/// The three difficulty names go to a CEFR level and back to themselves;
/// any other text, in whatever case, has no level.
pub proof fn lemma_difficulty_cefr_round_trip(difficulty: Seq<char>)
    ensures
        match difficulty_to_cefr_spec(difficulty) {
            Some(level) => cefr_to_difficulty_spec(level) == difficulty,
            None => difficulty != "beginner"@ && difficulty != "intermediate"@ && difficulty != "advanced"@,
        },
{
    reveal_strlit("A1");
    reveal_strlit("A2");
    reveal_strlit("B1");
    reveal_strlit("B2");
    reveal_strlit("C1");
    reveal_strlit("C2");
    lemma_upper_level("A1"@);
    lemma_upper_level("B1"@);
    lemma_upper_level("C1"@);
    assert("B1"@[0] != "A1"@[0] && "B1"@[0] != "A2"@[0]);
    assert("C1"@[0] != "A1"@[0] && "C1"@[0] != "A2"@[0] && "C1"@[0] != "B1"@[0] && "C1"@[0] != "B2"@[0]);
}

/// The entry CEFR level of a difficulty name (see
/// `difficulty_to_cefr_spec`).
pub fn difficulty_to_cefr(difficulty: &str) -> (r: Option<String>)
    ensures
        r matches Some(s) ==> difficulty_to_cefr_spec(difficulty@) == Some(s@),
        r is None ==> difficulty_to_cefr_spec(difficulty@) is None,
{
    if str_eq(difficulty, "beginner") {
        Some(copy_str("A1"))
    } else if str_eq(difficulty, "intermediate") {
        Some(copy_str("B1"))
    } else if str_eq(difficulty, "advanced") {
        Some(copy_str("C1"))
    } else {
        None
    }
}

/// The difficulty a topic's difficulty string names; anything but
/// "intermediate" and "advanced" is `Beginner`.
pub open spec fn difficulty_of(d: Seq<char>) -> Difficulty {
    if d == "intermediate"@ {
        Difficulty::Intermediate
    } else if d == "advanced"@ {
        Difficulty::Advanced
    } else {
        Difficulty::Beginner
    }
}

/// A topic's CEFR number, 0 when its level is missing or no CEFR level.
pub open spec fn topic_cefr_numeric(level: Option<Seq<char>>) -> i32 {
    match cefr_to_numeric_spec(
        match level {
            Some(l) => l,
            None => Seq::empty(),
        },
    ) {
        Some(n) => n,
        None => 0,
    }
}

/// The view of an optional string.
pub open spec fn opt_view(o: Option<String>) -> Option<Seq<char>> {
    match o {
        Some(s) => Some(s@),
        None => None,
    }
}

impl Topic {
    /// The difficulty the topic's difficulty string names.
    pub fn difficulty_enum(&self) -> (r: Difficulty)
        ensures
            r == difficulty_of(self.difficulty@),
    {
        let d = self.difficulty.as_str();
        if str_eq(d, "intermediate") {
            Difficulty::Intermediate
        } else if str_eq(d, "advanced") {
            Difficulty::Advanced
        } else {
            Difficulty::Beginner
        }
    }

    /// The topic's CEFR number, 0 when unknown.
    pub fn cefr_numeric(&self) -> (r: i32)
        ensures
            r == topic_cefr_numeric(opt_view(self.level)),
    {
        let n = match &self.level {
            Some(l) => cefr_to_numeric(l.as_str()),
            None => cefr_to_numeric(""),
        };
        proof {
            if self.level is None {
                assert(""@ =~= Seq::<char>::empty()) by {
                    reveal_strlit("");
                }
            }
        }
        match n {
            Some(v) => v,
            None => 0,
        }
    }

    /// The key topics are ordered by: the explicit order when there is one,
    /// else the CEFR number.
    pub fn sort_key(&self) -> (r: i32)
        ensures
            r == match self.order {
                Some(o) => o,
                None => topic_cefr_numeric(opt_view(self.level)),
            },
    {
        match self.order {
            Some(o) => o,
            None => self.cefr_numeric(),
        }
    }
}

/// The names of the grammar domains of a curriculum, in order.
pub open spec fn domain_names() -> Seq<Seq<char>> {
    seq![
        "phonetics-orthography"@,
        "morphology"@,
        "syntax"@,
        "verb-system"@,
        "lexicon-vocabulary"@,
        "pragmatics-discourse"@,
        "written-conventions"@,
        "text-types"@,
    ]
}

/// The descriptions of the grammar domains, in the order of
/// `domain_names`.
pub open spec fn domain_descriptions() -> Seq<Seq<char>> {
    seq![
        "Stress, diacritics, alphabet rules, spelling conventions, letter-sound correspondences"@,
        "Nouns, articles, adjectives, pronouns, determiners, adverbs, prepositions and their agreement"@,
        "Word order, questions, negation, relative clauses, subordinate clauses, passive/impersonal constructions"@,
        "Verb tenses, aspects, moods, regular and irregular verbs, stem-changing, reflexive, pronominal verbs"@,
        "Thematic vocabulary sets, collocations, idioms, false friends, register-specific words"@,
        "Connectors, discourse markers, politeness, formal/informal register, speech acts"@,
        "Punctuation, capitalization, abbreviations, email/letter format, diacritics in writing"@,
        "Narrative, descriptive, argumentative, official, informal, and literary texts"@,
    ]
}

/// The grammar domains of a curriculum with their descriptions.
pub fn curriculum_domain_descriptions() -> (r: Vec<(&'static str, &'static str)>)
    ensures
        r@.len() == 8,
        forall|i: int|
            0 <= i < 8 ==> (#[trigger] r@[i]).0@ == domain_names()[i] && r@[i].1@
                == domain_descriptions()[i],
{
    vec![
        (
            "phonetics-orthography",
            "Stress, diacritics, alphabet rules, spelling conventions, letter-sound correspondences",
        ),
        (
            "morphology",
            "Nouns, articles, adjectives, pronouns, determiners, adverbs, prepositions and their agreement",
        ),
        (
            "syntax",
            "Word order, questions, negation, relative clauses, subordinate clauses, passive/impersonal constructions",
        ),
        (
            "verb-system",
            "Verb tenses, aspects, moods, regular and irregular verbs, stem-changing, reflexive, pronominal verbs",
        ),
        (
            "lexicon-vocabulary",
            "Thematic vocabulary sets, collocations, idioms, false friends, register-specific words",
        ),
        (
            "pragmatics-discourse",
            "Connectors, discourse markers, politeness, formal/informal register, speech acts",
        ),
        (
            "written-conventions",
            "Punctuation, capitalization, abbreviations, email/letter format, diacritics in writing",
        ),
        (
            "text-types",
            "Narrative, descriptive, argumentative, official, informal, and literary texts",
        ),
    ]
}

/// `c` with ASCII uppercase letters mapped to lowercase.
pub open spec fn ascii_lower(c: char) -> char {
    if 'A' <= c <= 'Z' {
        ((c as u32) + 32) as char
    } else {
        c
    }
}

/// Whether two strings are equal ignoring ASCII case, as
/// `str::eq_ignore_ascii_case` defines it.
pub open spec fn eq_ignore_ascii_case_spec(a: Seq<char>, b: Seq<char>) -> bool {
    a.len() == b.len() && forall|i: int| 0 <= i < a.len() ==> ascii_lower(a[i]) == ascii_lower(b[i])
}

fn ascii_lower_exec(c: char) -> (r: char)
    ensures
        r == ascii_lower(c),
{
    if 'A' <= c && c <= 'Z' {
        ((c as u8) + 32) as char
    } else {
        c
    }
}

/// Whether two strings are equal ignoring ASCII case.
pub fn eq_ignore_ascii_case(a: &Vec<char>, b: &Vec<char>) -> (r: bool)
    ensures
        r == eq_ignore_ascii_case_spec(a@, b@),
{
    if a.len() != b.len() {
        return false;
    }
    let mut i: usize = 0;
    while i < a.len()
        invariant
            a@.len() == b@.len(),
            i <= a@.len(),
            forall|j: int| 0 <= j < i ==> ascii_lower(a@[j]) == ascii_lower(b@[j]),
        decreases a@.len() - i,
    {
        if ascii_lower_exec(a[i]) != ascii_lower_exec(b[i]) {
            return false;
        }
        i = i + 1;
    }
    true
}

/// Whether `tag` names the domain `name`, bare or as `domain:<name>`,
/// ignoring ASCII case.
pub open spec fn tag_names_domain(tag: Seq<char>, name: Seq<char>) -> bool {
    eq_ignore_ascii_case_spec(tag, name) || eq_ignore_ascii_case_spec(tag, "domain:"@ + name)
}

/// Index of the first domain from `j` on that `tag` names.
pub open spec fn domain_of_tag_from(tag: Seq<char>, j: int) -> Option<int>
    decreases 8 - j,
{
    if j < 0 || j >= 8 {
        None
    } else if tag_names_domain(tag, domain_names()[j]) {
        Some(j)
    } else {
        domain_of_tag_from(tag, j + 1)
    }
}

/// Index of the domain named by the first tag (from `i` on) that names
/// one.
pub open spec fn domain_of_tags_from(tags: Seq<Seq<char>>, i: int) -> Option<int>
    decreases tags.len() - i,
{
    if i < 0 || i >= tags.len() {
        None
    } else {
        match domain_of_tag_from(tags[i], 0) {
            Some(j) => Some(j),
            None => domain_of_tags_from(tags, i + 1),
        }
    }
}

/// The domain of a topic: the domain named by its first tag that names
/// one (see `tag_names_domain`).
pub fn topic_domain(topic: &Topic) -> (r: Option<&'static str>)
    ensures
        r matches Some(s) ==> (domain_of_tags_from(topic.tags.deep_view(), 0) matches Some(j)
            && s@ == domain_names()[j]),
        r is None ==> domain_of_tags_from(topic.tags.deep_view(), 0) is None,
{
    let domains = curriculum_domain_descriptions();
    let ghost tags = topic.tags.deep_view();
    let mut i: usize = 0;
    while i < topic.tags.len()
        invariant
            i <= tags.len(),
            tags == topic.tags.deep_view(),
            domains@.len() == 8,
            forall|k: int| 0 <= k < 8 ==> (#[trigger] domains@[k]).0@ == domain_names()[k],
            domain_of_tags_from(tags, 0) == domain_of_tags_from(tags, i as int),
        decreases tags.len() - i,
    {
        let tag = chars_of(topic.tags[i].as_str());
        let mut j: usize = 0;
        while j < 8
            invariant
                j <= 8,
                i < tags.len(),
                tags == topic.tags.deep_view(),
                domain_of_tags_from(tags, 0) == domain_of_tags_from(tags, i as int),
                tag@ == tags[i as int],
                domains@.len() == 8,
                forall|k: int| 0 <= k < 8 ==> (#[trigger] domains@[k]).0@ == domain_names()[k],
                domain_of_tag_from(tag@, 0) == domain_of_tag_from(tag@, j as int),
            decreases 8 - j,
        {
            let name = domains[j].0;
            let nv = chars_of(name);
            let mut prefixed = chars_of("domain:");
            let mut k: usize = 0;
            while k < nv.len()
                invariant
                    k <= nv@.len(),
                    prefixed@ == "domain:"@ + nv@.subrange(0, k as int),
                decreases nv@.len() - k,
            {
                prefixed.push(nv[k]);
                k = k + 1;
                assert(prefixed@ =~= "domain:"@ + nv@.subrange(0, k as int));
            }
            assert(nv@.subrange(0, nv@.len() as int) =~= nv@);
            if eq_ignore_ascii_case(&tag, &nv) || eq_ignore_ascii_case(&tag, &prefixed) {
                assert(domain_of_tag_from(tag@, j as int) == Some(j as int));
                return Some(name);
            }
            j = j + 1;
        }
        assert(domain_of_tag_from(tag@, 0) is None);
        i = i + 1;
    }
    None
}

/// Deterministic topic id for a newly generated topic: the slug of its
/// name, or "topic" when the name has no usable characters. Callers
/// disambiguate collisions with `-1`, `-2`, ... suffixes.
pub fn topic_id_from_name(name: &str) -> (r: String)
    ensures
        r@ == if slugify_spec(name@).len() == 0 {
            "topic"@
        } else {
            slugify_spec(name@)
        },
{
    let slug = slugify(name);
    if slug.as_str().unicode_len() == 0 {
        copy_str("topic")
    } else {
        slug
    }
}

/// Topic names too broad or abstract to be useful for repeated practice.
pub open spec fn abstract_patterns() -> Seq<Seq<char>> {
    seq![
        "common spelling errors"@,
        "common grammar mistakes"@,
        "common errors"@,
        "common mistakes"@,
        "grammar basics"@,
        "basic grammar"@,
        "basic vocabulary"@,
        "advanced vocabulary"@,
        "advanced grammar"@,
        "spelling errors"@,
        "grammar mistakes"@,
        "vocabulary"@,
        "fundamentals"@,
        "advanced topics"@,
    ]
}

/// Whether the lowercased name holds one of the abstract patterns.
pub open spec fn is_abstract_spec(name: Seq<char>) -> bool {
    exists|i: int|
        0 <= i < abstract_patterns().len() && contains_seq(
            lower_text(name),
            #[trigger] abstract_patterns()[i],
        )
}

/// Whether a topic name is too broad or abstract for repeated practice,
/// such as "Common Spelling Errors" or "Basic Vocabulary".
pub fn is_abstract_topic_name(name: &str) -> (r: bool)
    ensures
        r == is_abstract_spec(name@),
{
    let lower = to_lowercase(name);
    let patterns: [&str; 14] = [
        "common spelling errors",
        "common grammar mistakes",
        "common errors",
        "common mistakes",
        "grammar basics",
        "basic grammar",
        "basic vocabulary",
        "advanced vocabulary",
        "advanced grammar",
        "spelling errors",
        "grammar mistakes",
        "vocabulary",
        "fundamentals",
        "advanced topics",
    ];
    let mut i: usize = 0;
    while i < 14
        invariant
            i <= 14,
            patterns@.len() == 14,
            lower@ == lower_text(name@),
            forall|j: int| 0 <= j < 14 ==> (#[trigger] patterns@[j])@ == abstract_patterns()[j],
            forall|j: int|
                0 <= j < i ==> !contains_seq(lower_text(name@), #[trigger] abstract_patterns()[j]),
        decreases 14 - i,
    {
        if contains_str(lower.as_str(), patterns[i]) {
            return true;
        }
        i = i + 1;
    }
    false
}

/// Every abstract pattern starts and ends with a lower-case letter.
proof fn lemma_abstract_patterns_end_in_letters()
    ensures
        forall|i: int|
            0 <= i < abstract_patterns().len() ==> (#[trigger] abstract_patterns()[i]).len() > 0
                && 'a' <= abstract_patterns()[i][0] <= 'z' && 'a' <= abstract_patterns()[i].last() <= 'z',
{
    reveal_strlit("common spelling errors");
    reveal_strlit("common grammar mistakes");
    reveal_strlit("common errors");
    reveal_strlit("common mistakes");
    reveal_strlit("grammar basics");
    reveal_strlit("basic grammar");
    reveal_strlit("basic vocabulary");
    reveal_strlit("advanced vocabulary");
    reveal_strlit("advanced grammar");
    reveal_strlit("spelling errors");
    reveal_strlit("grammar mistakes");
    reveal_strlit("vocabulary");
    reveal_strlit("fundamentals");
    reveal_strlit("advanced topics");
}

/// An abstract ASCII name stays abstract once trimmed, so it is never a
/// learning item, and such a topic is removed.
pub proof fn lemma_abstract_name_is_no_learning_item(name: Seq<char>)
    requires
        all_ascii(name),
    ensures
        is_abstract_spec(name) ==> !is_learning_item_name_spec(name) && (is_abstract_spec(name) || has_prefix(
            lower_text(name),
            "spelling"@,
        )),
{
    if is_abstract_spec(name) {
        let i = choose|i: int|
            0 <= i < abstract_patterns().len() && contains_seq(lower_text(name), #[trigger] abstract_patterns()[i]);
        let pat = abstract_patterns()[i];
        let l = lower_text(name);
        assert(l == crate::text::ascii_lower(name));
        let p = choose|p: int| occurs_at(l, pat, p);
        lemma_abstract_patterns_end_in_letters();
        let m = pat.len();
        let a = first_non_ws(name, 0);
        let b = last_non_ws_end(name, name.len() as int);
        lemma_first_non_ws_bounds(name, 0);
        lemma_last_non_ws_bounds(name, name.len() as int);
        assert(l.subrange(p, p + m)[0] == l[p]);
        assert(l.subrange(p, p + m)[m - 1] == l[p + m - 1]);
        assert(p >= a) by {
            if p < a {
                assert(white_space(name[p]));
            }
        }
        assert(p + m <= b) by {
            if p + m - 1 >= b {
                assert(white_space(name[p + m - 1]));
            }
        }
        let t = trim_spec(name);
        assert(t == name.subrange(a, b));
        assert(all_ascii(t));
        let lt = lower_text(t);
        assert(lt == crate::text::ascii_lower(t));
        assert(lt.subrange(p - a, p - a + m) =~= pat);
        assert(occurs_at(lt, pat, p - a));
        assert(contains_seq(lt, abstract_patterns()[i]));
        assert(is_abstract_spec(t));
    }
}

/// Whether a topic should be removed from the curriculum: its name is
/// abstract or, lowercased, starts with "spelling".
pub fn should_remove_topic(name: &str) -> (r: bool)
    ensures
        r == (is_abstract_spec(name@) || has_prefix(lower_text(name@), "spelling"@)),
{
    if is_abstract_topic_name(name) {
        return true;
    }
    let lower = to_lowercase(name);
    starts_with(lower.as_str(), "spelling")
}

/// The names of a list of topics.
pub open spec fn topic_names(ts: Seq<Topic>) -> Seq<Seq<char>> {
    Seq::new(ts.len(), |i: int| ts[i].name@)
}

/// What `dedupe` returns: going through the topics in order, a topic whose
/// name duplicates one already kept (see `is_duplicate_name_spec`) is
/// removed, every other one is kept.
pub open spec fn dedupe_topics_spec(ts: Seq<Topic>) -> (Seq<Topic>, Seq<Topic>)
    decreases ts.len(),
{
    if ts.len() == 0 {
        (Seq::empty(), Seq::empty())
    } else {
        let (kept, removed) = dedupe_topics_spec(ts.drop_last());
        let t = ts.last();
        if is_duplicate_name_spec(topic_names(kept), t.name@) is Some {
            (kept, removed.push(t))
        } else {
            (kept.push(t), removed)
        }
    }
}

/// Splits `topics` into (kept, removed), merging fuzzy name duplicates
/// (same criterion as `learning_items::is_duplicate_name`). The first
/// topic of each duplicate group is kept, so the result is deterministic.
pub fn dedupe(topics: Vec<Topic>) -> (r: (Vec<Topic>, Vec<Topic>))
    ensures
        (r.0@, r.1@) == dedupe_topics_spec(topics@),
{
    let ghost orig = topics@;
    let n = topics.len();
    let mut rest = topics;
    let mut kept: Vec<Topic> = Vec::new();
    let mut removed: Vec<Topic> = Vec::new();
    let mut kept_names: Vec<Vec<char>> = Vec::new();
    let mut k: usize = 0;
    while rest.len() > 0
        invariant
            n == orig.len(),
            k + rest@.len() == orig.len(),
            rest@ == orig.subrange(k as int, orig.len() as int),
            (kept@, removed@) == dedupe_topics_spec(orig.subrange(0, k as int)),
            views(kept_names@) == topic_names(kept@),
        decreases rest@.len(),
    {
        let topic = rest.remove(0);
        proof {
            let pre = orig.subrange(0, k + 1);
            assert(pre.drop_last() =~= orig.subrange(0, k as int));
            assert(pre.last() == topic);
        }
        let name = chars_of(topic.name.as_str());
        let dup = duplicate_name_index(&kept_names, &name);
        if dup.is_some() {
            removed.push(topic);
        } else {
            let ghost before_names = views(kept_names@);
            let ghost before_kept = kept@;
            kept_names.push(name);
            kept.push(topic);
            assert(views(kept_names@) =~= topic_names(kept@)) by {
                assert(topic_names(kept@) =~= topic_names(before_kept).push(topic.name@));
                assert(views(kept_names@) =~= before_names.push(topic.name@));
            }
        }
        k = k + 1;
        assert(rest@ =~= orig.subrange(k as int, orig.len() as int));
    }
    assert(orig.subrange(0, k as int) =~= orig);
    (kept, removed)
}

/// Deduplicating the topics that `dedupe` kept removes nothing: no kept
/// topic duplicates one kept before it.
pub proof fn lemma_dedupe_idempotent(ts: Seq<Topic>)
    ensures
        dedupe_topics_spec(dedupe_topics_spec(ts).0) == (dedupe_topics_spec(ts).0, Seq::<
            Topic,
        >::empty()),
    decreases ts.len(),
{
    if ts.len() > 0 {
        lemma_dedupe_idempotent(ts.drop_last());
        let (kept, removed) = dedupe_topics_spec(ts.drop_last());
        let t = ts.last();
        if is_duplicate_name_spec(topic_names(kept), t.name@) is None {
            let k2 = kept.push(t);
            assert(k2.drop_last() =~= kept);
        }
    }
}

/// Deduplication neither loses nor invents a topic: the kept and the
/// removed topics together are the input topics, each as often as it occurs
/// there.
pub proof fn lemma_dedupe_keeps_every_topic(ts: Seq<Topic>)
    ensures
        (dedupe_topics_spec(ts).0 + dedupe_topics_spec(ts).1).to_multiset() =~= ts.to_multiset(),
    decreases ts.len(),
{
    broadcast use vstd::seq_lib::group_to_multiset_ensures;
    broadcast use vstd::seq_lib::lemma_multiset_commutative;
    broadcast use vstd::multiset::group_multiset_axioms;

    if ts.len() > 0 {
        lemma_dedupe_keeps_every_topic(ts.drop_last());
        assert(ts =~= ts.drop_last().push(ts.last()));
    }
}

/// The starting score, in points, of a newly added topic: material below
/// the learner's CEFR level (both given by their rank, 0 for none) counts
/// as already familiar (100); everything else starts at 0.
pub fn initial_topic_score(topic_cefr: i32, user_cefr: i32) -> (r: u32)
    ensures
        r == (if 0 < topic_cefr < user_cefr {
            100u32
        } else {
            0u32
        }),
{
    if topic_cefr > 0 && topic_cefr < user_cefr {
        100
    } else {
        0
    }
}

} // verus!

//! The prompts sent to the language model: each one is an exact text built
//! from the learner's profile and the curriculum data it is about.
use vstd::prelude::*;

use crate::curriculum::{
    cefr_to_difficulty, cefr_to_difficulty_spec, cefr_to_numeric, cefr_to_numeric_spec,
    curriculum_domain_descriptions, difficulty_to_cefr, difficulty_to_cefr_spec,
    domain_descriptions, domain_names, Topic,
};
use crate::learning_items::LearningItem;
use crate::vocabulary::Lemma;
use crate::profile::UserProfile;
use crate::session::models::{opt_seq, Exercise, NewTopicRef};
use crate::text::{
    copy_str, decimal, joined, lemma_joined_extend, push_decimal, push_signed_decimal, push_str,
    signed_decimal, str_eq, to_uppercase, upper_text,
};

verus! {

/// The text of an optional string, or `default` when it is absent.
pub open spec fn text_or(o: Option<String>, default: Seq<char>) -> Seq<char> {
    match o {
        Some(s) => s@,
        None => default,
    }
}

/// The English name of a language, as the prompts' prose spells it: the
/// name of a known ISO 639-1 code, else the text as it is (a profile may
/// already hold a name).
pub open spec fn english_name_spec(code: Seq<char>) -> Seq<char> {
    if code == "en"@ {
        "English"@
    } else if code == "ru"@ {
        "Russian"@
    } else if code == "es"@ {
        "Spanish"@
    } else if code == "de"@ {
        "German"@
    } else if code == "fr"@ {
        "French"@
    } else if code == "it"@ {
        "Italian"@
    } else if code == "pt"@ {
        "Portuguese"@
    } else if code == "uk"@ {
        "Ukrainian"@
    } else if code == "pl"@ {
        "Polish"@
    } else if code == "nl"@ {
        "Dutch"@
    } else if code == "tr"@ {
        "Turkish"@
    } else if code == "cs"@ {
        "Czech"@
    } else if code == "sv"@ {
        "Swedish"@
    } else if code == "el"@ {
        "Greek"@
    } else if code == "ja"@ {
        "Japanese"@
    } else if code == "zh"@ {
        "Chinese"@
    } else if code == "ko"@ {
        "Korean"@
    } else if code == "ar"@ {
        "Arabic"@
    } else {
        code
    }
}

/// The English name of a language (see `english_name_spec`).
pub fn english_name(code: &str) -> (r: &str)
    ensures
        r@ == english_name_spec(code@),
{
    if str_eq(code, "en") {
        "English"
    } else if str_eq(code, "ru") {
        "Russian"
    } else if str_eq(code, "es") {
        "Spanish"
    } else if str_eq(code, "de") {
        "German"
    } else if str_eq(code, "fr") {
        "French"
    } else if str_eq(code, "it") {
        "Italian"
    } else if str_eq(code, "pt") {
        "Portuguese"
    } else if str_eq(code, "uk") {
        "Ukrainian"
    } else if str_eq(code, "pl") {
        "Polish"
    } else if str_eq(code, "nl") {
        "Dutch"
    } else if str_eq(code, "tr") {
        "Turkish"
    } else if str_eq(code, "cs") {
        "Czech"
    } else if str_eq(code, "sv") {
        "Swedish"
    } else if str_eq(code, "el") {
        "Greek"
    } else if str_eq(code, "ja") {
        "Japanese"
    } else if str_eq(code, "zh") {
        "Chinese"
    } else if str_eq(code, "ko") {
        "Korean"
    } else if str_eq(code, "ar") {
        "Arabic"
    } else {
        code
    }
}

/// The views of a slice of string slices.
pub open spec fn str_views(parts: Seq<&str>) -> Seq<Seq<char>> {
    Seq::new(parts.len(), |i: int| parts[i]@)
}

/// Joins `parts` with `sep` between neighbours.
pub(crate) fn join_strs(parts: &[&str], sep: &str) -> (r: String)
    ensures
        r@ == joined(str_views(parts@), sep@),
{
    let ghost views = str_views(parts@);
    let mut out = String::new();
    let mut i: usize = 0;
    while i < parts.len()
        invariant
            i <= parts.len(),
            views == str_views(parts@),
            out@ == joined(views.take(i as int), sep@),
        decreases parts.len() - i,
    {
        proof {
            lemma_joined_extend(views, sep@, i as int);
        }
        if i > 0 {
            push_str(&mut out, sep);
        }
        push_str(&mut out, parts[i]);
        i = i + 1;
    }
    assert(views.take(parts.len() as int) =~= views);
    out
}

pub const SHAPE_A1: &'static str = "3-7 words per sentence, a single clause, present tense only, very common \
    vocabulary.";
pub const SHAPE_A2: &'static str = "6-12 words per sentence, one clause preferred, at most one simple subordinate \
    clause (because/when/that), common everyday vocabulary.";
pub const SHAPE_B1: &'static str = "8-15 words per sentence, up to two clauses, common connectors.";
pub const SHAPE_B2: &'static str = "up to about 20 words per sentence, subordinate clauses and some idiomatic \
    vocabulary allowed.";
pub const SHAPE_OTHER: &'static str = "no length limit, natural sophisticated prose.";

/// The sentence shape limits for exercises at a CEFR level, compared in
/// upper case; levels above B2 (and unknown ones) have no limit.
pub open spec fn sentence_shape_spec(level: Seq<char>) -> Seq<char> {
    let u = upper_text(level);
    if u == "A1"@ {
        SHAPE_A1@
    } else if u == "A2"@ {
        SHAPE_A2@
    } else if u == "B1"@ {
        SHAPE_B1@
    } else if u == "B2"@ {
        SHAPE_B2@
    } else {
        SHAPE_OTHER@
    }
}

/// Per-CEFR-level sentence shape limits for generated exercises, so that a
/// "coherent mini-story" does not turn into long multi-clause sentences.
pub fn sentence_shape_guidance(level: &str) -> (r: &'static str)
    ensures
        r@ == sentence_shape_spec(level@),
{
    let u = to_uppercase(level);
    let s = u.as_str();
    if str_eq(s, "A1") {
        SHAPE_A1
    } else if str_eq(s, "A2") {
        SHAPE_A2
    } else if str_eq(s, "B1") {
        SHAPE_B1
    } else if str_eq(s, "B2") {
        SHAPE_B2
    } else {
        SHAPE_OTHER
    }
}

pub const TOPIC_REVIEW_0: &'static str = "You are a language tutor. Prepare a focused review of the topic \"";
pub const TOPIC_REVIEW_1: &'static str = "\" in ";
pub const TOPIC_REVIEW_2: &'static str = " for a ";
pub const TOPIC_REVIEW_3: &'static str = " speaker.\n\nTopic description: ";
pub const TOPIC_REVIEW_4: &'static str = "\n\nRequirements:\n- Explain the core rule in 2-3 short paragraphs.\n- Provide \
    3-5 simple examples in ";
pub const TOPIC_REVIEW_5: &'static str = " with ";
pub const TOPIC_REVIEW_6: &'static str = " translations.\n- Avoid introductions, conclusions, and filler text.\n- Explain \
    everything in ";
pub const TOPIC_REVIEW_7: &'static str = ".\n- CRITICAL: Do NOT mention system instructions, skills, superpowers, tools, \
    the current lesson, or any meta commentary. Only output the topic \
    explanation.\n\nFormat your response as well-structured Markdown that the \
    terminal renderer supports:\n- Use ## for section headings (e.g. ## \
    Conjugation, ## Examples, ## Usage)\n- Use **bold** for emphasis on key \
    terms\n- Use `code` for short linguistic examples, forms, or patterns inline\n- \
    Use bullet lists (-) for examples and comparisons; do NOT use fenced code \
    blocks (```) or markdown tables\n- Keep examples short and use plain \
    ASCII-friendly punctuation where possible; avoid rare Unicode symbols or \
    combining diacritics that may not render in every terminal\n\nReturn ONLY the \
    Markdown content. Do not wrap output in code fences.";

/// The topic review prompt for a topic `name` with `description`, taught in `target` to a `native` speaker.
pub open spec fn topic_review_prompt_spec(target: Seq<char>, native: Seq<char>, name: Seq<char>, description: Seq<char>) -> Seq<char> {
    TOPIC_REVIEW_0@
        + name
        + TOPIC_REVIEW_1@
        + target
        + TOPIC_REVIEW_2@
        + native
        + TOPIC_REVIEW_3@
        + description
        + TOPIC_REVIEW_4@
        + target
        + TOPIC_REVIEW_5@
        + native
        + TOPIC_REVIEW_6@
        + native
        + TOPIC_REVIEW_7@
}

fn render_topic_review(target: &str, native: &str, name: &str, description: &str) -> (out: String)
    ensures
        out@ == topic_review_prompt_spec(target@, native@, name@, description@),
{
    let mut out = String::new();
    push_str(&mut out, TOPIC_REVIEW_0);
    push_str(&mut out, name);
    push_str(&mut out, TOPIC_REVIEW_1);
    push_str(&mut out, target);
    push_str(&mut out, TOPIC_REVIEW_2);
    push_str(&mut out, native);
    push_str(&mut out, TOPIC_REVIEW_3);
    push_str(&mut out, description);
    push_str(&mut out, TOPIC_REVIEW_4);
    push_str(&mut out, target);
    push_str(&mut out, TOPIC_REVIEW_5);
    push_str(&mut out, native);
    push_str(&mut out, TOPIC_REVIEW_6);
    push_str(&mut out, native);
    push_str(&mut out, TOPIC_REVIEW_7);
    out
}

pub const TOPIC_METADATA_0: &'static str = "Generate a language learning topic for the topic id \"";
pub const TOPIC_METADATA_1: &'static str = "\" in ";
pub const TOPIC_METADATA_2: &'static str = " for a ";
pub const TOPIC_METADATA_3: &'static str = " speaker.\nThe student's current CEFR level is ";
pub const TOPIC_METADATA_4: &'static str = ". The topic should be appropriate for this level or below if it is a \
    prerequisite topic.\n\nReturn a JSON object with:\n- id: \"";
pub const TOPIC_METADATA_5: &'static str = "\" (exactly this id)\n- name: short display name (2-5 words)\n- description: \
    1-2 sentences explaining the topic\n- difficulty: \"beginner\" | \
    \"intermediate\" | \"advanced\"\n- level: CEFR level (\"A1\", \"A2\", \"B1\", \
    \"B2\", \"C1\", \"C2\")\n- tags: string[] (relevant grammar/vocabulary tags)\n- \
    targetLang: \"";
pub const TOPIC_METADATA_6: &'static str = "\"\n- nativeLang: \"";
pub const TOPIC_METADATA_7: &'static str = "\"\n- version: 1\n\nCRITICAL: write each topic's \"name\" and \"description\" \
    in ";
pub const TOPIC_METADATA_8: &'static str = " (the student's native language). Only linguistic examples may be in ";
pub const TOPIC_METADATA_9: &'static str = ".\n\nRespond ONLY with the JSON object. No extra commentary.";

/// The prompt asking for the metadata of the topic `topic_id`, for a learner at CEFR level `cefr`.
pub open spec fn topic_metadata_prompt_spec(topic_id: Seq<char>, target: Seq<char>, native: Seq<char>, cefr: Seq<char>) -> Seq<char> {
    TOPIC_METADATA_0@
        + topic_id
        + TOPIC_METADATA_1@
        + target
        + TOPIC_METADATA_2@
        + native
        + TOPIC_METADATA_3@
        + cefr
        + TOPIC_METADATA_4@
        + topic_id
        + TOPIC_METADATA_5@
        + target
        + TOPIC_METADATA_6@
        + native
        + TOPIC_METADATA_7@
        + native
        + TOPIC_METADATA_8@
        + target
        + TOPIC_METADATA_9@
}

fn render_topic_metadata(topic_id: &str, target: &str, native: &str, cefr: &str) -> (out: String)
    ensures
        out@ == topic_metadata_prompt_spec(topic_id@, target@, native@, cefr@),
{
    let mut out = String::new();
    push_str(&mut out, TOPIC_METADATA_0);
    push_str(&mut out, topic_id);
    push_str(&mut out, TOPIC_METADATA_1);
    push_str(&mut out, target);
    push_str(&mut out, TOPIC_METADATA_2);
    push_str(&mut out, native);
    push_str(&mut out, TOPIC_METADATA_3);
    push_str(&mut out, cefr);
    push_str(&mut out, TOPIC_METADATA_4);
    push_str(&mut out, topic_id);
    push_str(&mut out, TOPIC_METADATA_5);
    push_str(&mut out, target);
    push_str(&mut out, TOPIC_METADATA_6);
    push_str(&mut out, native);
    push_str(&mut out, TOPIC_METADATA_7);
    push_str(&mut out, native);
    push_str(&mut out, TOPIC_METADATA_8);
    push_str(&mut out, target);
    push_str(&mut out, TOPIC_METADATA_9);
    out
}

pub const CURRICULUM_LEVEL_0: &'static str = "You are a senior professor of linguistics and language pedagogy. You are \
    designing a focused ";
pub const CURRICULUM_LEVEL_1: &'static str = " course for a ";
pub const CURRICULUM_LEVEL_2: &'static str = " speaker.\n\n";
pub const CURRICULUM_LEVEL_3: &'static str = "\n\nThis course is delivered entirely through translation exercises (sentences \
    and short written texts). Generate ONLY topics that can be practiced by translating \
    from ";
pub const CURRICULUM_LEVEL_4: &'static str = " to ";
pub const CURRICULUM_LEVEL_5: &'static str = " or analyzing written ";
pub const CURRICULUM_LEVEL_6: &'static str = ". Do NOT include listening, speaking, pronunciation drills, or \
    conversation-only topics.\n\nYour current task: produce around ";
pub const CURRICULUM_LEVEL_7: &'static str = " focused ";
pub const CURRICULUM_LEVEL_8: &'static str = " topics a learner must master to progress from CEFR ";
pub const CURRICULUM_LEVEL_9: &'static str = " to CEFR ";
pub const CURRICULUM_LEVEL_10: &'static str = ". Cover each translatable domain listed below with a few concrete, narrow \
    topics. Prefer small, actionable topics that fit 1–2 translation \
    exercises.\n\nAll topics in this level must have:\n- difficulty: \"";
pub const CURRICULUM_LEVEL_11: &'static str = "\"\n- level: \"";
pub const CURRICULUM_LEVEL_12: &'static str = "\"\n- tags: include exactly one domain tag from the list below (prefix \
    \"domain:\"), plus relevant grammar/vocabulary tags.\n\nYou must cover ALL of \
    the following translatable domains:\n";
pub const CURRICULUM_LEVEL_13: &'static str = "\n\nTopic format rules:\n- id: unique kebab-case string (lowercase letters, \
    digits, and hyphens only)\n- name: 2-6 words, specific and actionable\n- \
    description: 1-2 sentences\n- difficulty: \"";
pub const CURRICULUM_LEVEL_14: &'static str = "\"\n- level: \"";
pub const CURRICULUM_LEVEL_15: &'static str = "\"\n- tags: [\"domain:<domain-name>\", ...]\n- targetLang: \"";
pub const CURRICULUM_LEVEL_16: &'static str = "\"\n- nativeLang: \"";
pub const CURRICULUM_LEVEL_17: &'static str = "\"\n- version: 1\n\nCRITICAL: write each topic's \"name\" and \"description\" \
    in ";
pub const CURRICULUM_LEVEL_18: &'static str = " (the student's native language). Only linguistic examples may be in ";
pub const CURRICULUM_LEVEL_19: &'static str = ".\n\nReturn a JSON object:\n{\n\"version\": 1,\n\"targetLanguage\": \"";
pub const CURRICULUM_LEVEL_20: &'static str = "\",\n\"nativeLanguage\": \"";
pub const CURRICULUM_LEVEL_21: &'static str = "\",\n\"topics\": [ ... ]\n}\n\nKeep the response concise and valid JSON. Do not \
    include commentary or markdown code fences.";

/// The prompt asking for about `count` topics that lead from CEFR `previous` to CEFR `level`.
pub open spec fn curriculum_level_prompt_spec(target: Seq<char>, native: Seq<char>, age_hint: Seq<char>, count: nat, previous: Seq<char>, level: Seq<char>, difficulty: Seq<char>, domains: Seq<char>) -> Seq<char> {
    CURRICULUM_LEVEL_0@
        + target
        + CURRICULUM_LEVEL_1@
        + native
        + CURRICULUM_LEVEL_2@
        + age_hint
        + CURRICULUM_LEVEL_3@
        + native
        + CURRICULUM_LEVEL_4@
        + target
        + CURRICULUM_LEVEL_5@
        + target
        + CURRICULUM_LEVEL_6@
        + decimal(count)
        + CURRICULUM_LEVEL_7@
        + target
        + CURRICULUM_LEVEL_8@
        + previous
        + CURRICULUM_LEVEL_9@
        + level
        + CURRICULUM_LEVEL_10@
        + difficulty
        + CURRICULUM_LEVEL_11@
        + level
        + CURRICULUM_LEVEL_12@
        + domains
        + CURRICULUM_LEVEL_13@
        + difficulty
        + CURRICULUM_LEVEL_14@
        + level
        + CURRICULUM_LEVEL_15@
        + target
        + CURRICULUM_LEVEL_16@
        + native
        + CURRICULUM_LEVEL_17@
        + native
        + CURRICULUM_LEVEL_18@
        + target
        + CURRICULUM_LEVEL_19@
        + target
        + CURRICULUM_LEVEL_20@
        + native
        + CURRICULUM_LEVEL_21@
}

fn render_curriculum_level(target: &str, native: &str, age_hint: &str, count: u64, previous: &str, level: &str, difficulty: &str, domains: &str) -> (out: String)
    ensures
        out@ == curriculum_level_prompt_spec(target@, native@, age_hint@, count as nat, previous@, level@, difficulty@, domains@),
{
    let mut out = String::new();
    push_str(&mut out, CURRICULUM_LEVEL_0);
    push_str(&mut out, target);
    push_str(&mut out, CURRICULUM_LEVEL_1);
    push_str(&mut out, native);
    push_str(&mut out, CURRICULUM_LEVEL_2);
    push_str(&mut out, age_hint);
    push_str(&mut out, CURRICULUM_LEVEL_3);
    push_str(&mut out, native);
    push_str(&mut out, CURRICULUM_LEVEL_4);
    push_str(&mut out, target);
    push_str(&mut out, CURRICULUM_LEVEL_5);
    push_str(&mut out, target);
    push_str(&mut out, CURRICULUM_LEVEL_6);
    push_decimal(&mut out, count);
    push_str(&mut out, CURRICULUM_LEVEL_7);
    push_str(&mut out, target);
    push_str(&mut out, CURRICULUM_LEVEL_8);
    push_str(&mut out, previous);
    push_str(&mut out, CURRICULUM_LEVEL_9);
    push_str(&mut out, level);
    push_str(&mut out, CURRICULUM_LEVEL_10);
    push_str(&mut out, difficulty);
    push_str(&mut out, CURRICULUM_LEVEL_11);
    push_str(&mut out, level);
    push_str(&mut out, CURRICULUM_LEVEL_12);
    push_str(&mut out, domains);
    push_str(&mut out, CURRICULUM_LEVEL_13);
    push_str(&mut out, difficulty);
    push_str(&mut out, CURRICULUM_LEVEL_14);
    push_str(&mut out, level);
    push_str(&mut out, CURRICULUM_LEVEL_15);
    push_str(&mut out, target);
    push_str(&mut out, CURRICULUM_LEVEL_16);
    push_str(&mut out, native);
    push_str(&mut out, CURRICULUM_LEVEL_17);
    push_str(&mut out, native);
    push_str(&mut out, CURRICULUM_LEVEL_18);
    push_str(&mut out, target);
    push_str(&mut out, CURRICULUM_LEVEL_19);
    push_str(&mut out, target);
    push_str(&mut out, CURRICULUM_LEVEL_20);
    push_str(&mut out, native);
    push_str(&mut out, CURRICULUM_LEVEL_21);
    out
}

pub const CURRICULUM_GAP_0: &'static str = "You are a senior professor of linguistics and language pedagogy. The ";
pub const CURRICULUM_GAP_1: &'static str = " curriculum for CEFR level ";
pub const CURRICULUM_GAP_2: &'static str = " is missing topics in the following domains: ";
pub const CURRICULUM_GAP_3: &'static str = ".\n\nGenerate exactly the topics needed to cover these domains. Each topic must \
    be translatable in written form (no listening/speaking-only topics). Do not \
    duplicate topics the learner already has at this level.\n\nCRITICAL: write each \
    topic's \"name\" and \"description\" in ";
pub const CURRICULUM_GAP_4: &'static str = " (the student's native language). Only linguistic examples may be in ";
pub const CURRICULUM_GAP_5: &'static str = ".\n\nReturn a JSON object:\n{\n\"version\": 1,\n\"targetLanguage\": \"";
pub const CURRICULUM_GAP_6: &'static str = "\",\n\"nativeLanguage\": \"";
pub const CURRICULUM_GAP_7: &'static str = "\",\n\"topics\": [\n{\n\"id\": \"kebab-case id\",\n\"name\": \"2-6 \
    words\",\n\"description\": \"1-2 sentences\",\n\"difficulty\": \"";
pub const CURRICULUM_GAP_8: &'static str = "\",\n\"level\": \"";
pub const CURRICULUM_GAP_9: &'static str = "\",\n\"tags\": [\"domain:<domain-name>\", ...],\n\"targetLang\": \"";
pub const CURRICULUM_GAP_10: &'static str = "\",\n\"nativeLang\": \"";
pub const CURRICULUM_GAP_11: &'static str = "\",\n\"version\": 1\n}\n]\n}";

/// The prompt asking for topics in the `domains` that a level of the curriculum lacks.
pub open spec fn curriculum_gap_prompt_spec(target: Seq<char>, native: Seq<char>, level: Seq<char>, difficulty: Seq<char>, domains: Seq<char>) -> Seq<char> {
    CURRICULUM_GAP_0@
        + target
        + CURRICULUM_GAP_1@
        + level
        + CURRICULUM_GAP_2@
        + domains
        + CURRICULUM_GAP_3@
        + native
        + CURRICULUM_GAP_4@
        + target
        + CURRICULUM_GAP_5@
        + target
        + CURRICULUM_GAP_6@
        + native
        + CURRICULUM_GAP_7@
        + difficulty
        + CURRICULUM_GAP_8@
        + level
        + CURRICULUM_GAP_9@
        + target
        + CURRICULUM_GAP_10@
        + native
        + CURRICULUM_GAP_11@
}

fn render_curriculum_gap(target: &str, native: &str, level: &str, difficulty: &str, domains: &str) -> (out: String)
    ensures
        out@ == curriculum_gap_prompt_spec(target@, native@, level@, difficulty@, domains@),
{
    let mut out = String::new();
    push_str(&mut out, CURRICULUM_GAP_0);
    push_str(&mut out, target);
    push_str(&mut out, CURRICULUM_GAP_1);
    push_str(&mut out, level);
    push_str(&mut out, CURRICULUM_GAP_2);
    push_str(&mut out, domains);
    push_str(&mut out, CURRICULUM_GAP_3);
    push_str(&mut out, native);
    push_str(&mut out, CURRICULUM_GAP_4);
    push_str(&mut out, target);
    push_str(&mut out, CURRICULUM_GAP_5);
    push_str(&mut out, target);
    push_str(&mut out, CURRICULUM_GAP_6);
    push_str(&mut out, native);
    push_str(&mut out, CURRICULUM_GAP_7);
    push_str(&mut out, difficulty);
    push_str(&mut out, CURRICULUM_GAP_8);
    push_str(&mut out, level);
    push_str(&mut out, CURRICULUM_GAP_9);
    push_str(&mut out, target);
    push_str(&mut out, CURRICULUM_GAP_10);
    push_str(&mut out, native);
    push_str(&mut out, CURRICULUM_GAP_11);
    out
}

pub const CURRICULUM_DOMAIN_0: &'static str = "You are a senior professor of linguistics and language pedagogy. You are \
    designing ";
pub const CURRICULUM_DOMAIN_1: &'static str = " topics for CEFR level ";
pub const CURRICULUM_DOMAIN_2: &'static str = " for a ";
pub const CURRICULUM_DOMAIN_3: &'static str = " speaker.\n\nFocus ONLY on the following domain. Do not include topics from \
    other domains.\nDomain: ";
pub const CURRICULUM_DOMAIN_4: &'static str = " — ";
pub const CURRICULUM_DOMAIN_5: &'static str = "\n\nThis course is delivered entirely through translation exercises (sentences \
    and short written texts). Generate ONLY topics that can be practiced by translating \
    from ";
pub const CURRICULUM_DOMAIN_6: &'static str = " to ";
pub const CURRICULUM_DOMAIN_7: &'static str = " or analyzing written ";
pub const CURRICULUM_DOMAIN_8: &'static str = ". Do NOT include listening, speaking, pronunciation drills, or \
    conversation-only topics.\n\nGenerate exactly ";
pub const CURRICULUM_DOMAIN_9: &'static str = " focused, narrow ";
pub const CURRICULUM_DOMAIN_10: &'static str = " topics in this domain that a learner must master to progress at CEFR ";
pub const CURRICULUM_DOMAIN_11: &'static str = ". Each topic should be small enough to practice in 1–2 translation \
    exercises.\n\nAll topics must have:\n- difficulty: \"";
pub const CURRICULUM_DOMAIN_12: &'static str = "\"\n- level: \"";
pub const CURRICULUM_DOMAIN_13: &'static str = "\"\n- tags: include exactly one domain tag \"domain:";
pub const CURRICULUM_DOMAIN_14: &'static str = "\", plus relevant grammar/vocabulary tags.\n\nTopic format rules:\n- id: unique \
    kebab-case string (lowercase letters, digits, and hyphens only)\n- name: 2-6 \
    words, specific and actionable\n- description: 1-2 sentences\n- difficulty: \"";
pub const CURRICULUM_DOMAIN_15: &'static str = "\"\n- level: \"";
pub const CURRICULUM_DOMAIN_16: &'static str = "\"\n- tags: [\"domain:";
pub const CURRICULUM_DOMAIN_17: &'static str = "\", ...]\n- targetLang: \"";
pub const CURRICULUM_DOMAIN_18: &'static str = "\"\n- nativeLang: \"";
pub const CURRICULUM_DOMAIN_19: &'static str = "\"\n- version: 1\n\nCRITICAL: write each topic's \"name\" and \"description\" \
    in ";
pub const CURRICULUM_DOMAIN_20: &'static str = " (the student's native language). Only linguistic examples may be in ";
pub const CURRICULUM_DOMAIN_21: &'static str = ".\n\nReturn a JSON object:\n{\n\"version\": 1,\n\"targetLanguage\": \"";
pub const CURRICULUM_DOMAIN_22: &'static str = "\",\n\"nativeLanguage\": \"";
pub const CURRICULUM_DOMAIN_23: &'static str = "\",\n\"topics\": [ ... ]\n}\n\nBefore returning, double-check that each topic \
    is narrow, has a valid kebab-case id, and belongs to the ";
pub const CURRICULUM_DOMAIN_24: &'static str = " domain.";

/// The prompt asking for `count` topics of one domain at one CEFR level.
pub open spec fn curriculum_domain_prompt_spec(target: Seq<char>, native: Seq<char>, level: Seq<char>, difficulty: Seq<char>, domain: Seq<char>, domain_description: Seq<char>, count: nat) -> Seq<char> {
    CURRICULUM_DOMAIN_0@
        + target
        + CURRICULUM_DOMAIN_1@
        + level
        + CURRICULUM_DOMAIN_2@
        + native
        + CURRICULUM_DOMAIN_3@
        + domain
        + CURRICULUM_DOMAIN_4@
        + domain_description
        + CURRICULUM_DOMAIN_5@
        + native
        + CURRICULUM_DOMAIN_6@
        + target
        + CURRICULUM_DOMAIN_7@
        + target
        + CURRICULUM_DOMAIN_8@
        + decimal(count)
        + CURRICULUM_DOMAIN_9@
        + target
        + CURRICULUM_DOMAIN_10@
        + level
        + CURRICULUM_DOMAIN_11@
        + difficulty
        + CURRICULUM_DOMAIN_12@
        + level
        + CURRICULUM_DOMAIN_13@
        + domain
        + CURRICULUM_DOMAIN_14@
        + difficulty
        + CURRICULUM_DOMAIN_15@
        + level
        + CURRICULUM_DOMAIN_16@
        + domain
        + CURRICULUM_DOMAIN_17@
        + target
        + CURRICULUM_DOMAIN_18@
        + native
        + CURRICULUM_DOMAIN_19@
        + native
        + CURRICULUM_DOMAIN_20@
        + target
        + CURRICULUM_DOMAIN_21@
        + target
        + CURRICULUM_DOMAIN_22@
        + native
        + CURRICULUM_DOMAIN_23@
        + domain
        + CURRICULUM_DOMAIN_24@
}

fn render_curriculum_domain(target: &str, native: &str, level: &str, difficulty: &str, domain: &str, domain_description: &str, count: u64) -> (out: String)
    ensures
        out@ == curriculum_domain_prompt_spec(target@, native@, level@, difficulty@, domain@, domain_description@, count as nat),
{
    let mut out = String::new();
    push_str(&mut out, CURRICULUM_DOMAIN_0);
    push_str(&mut out, target);
    push_str(&mut out, CURRICULUM_DOMAIN_1);
    push_str(&mut out, level);
    push_str(&mut out, CURRICULUM_DOMAIN_2);
    push_str(&mut out, native);
    push_str(&mut out, CURRICULUM_DOMAIN_3);
    push_str(&mut out, domain);
    push_str(&mut out, CURRICULUM_DOMAIN_4);
    push_str(&mut out, domain_description);
    push_str(&mut out, CURRICULUM_DOMAIN_5);
    push_str(&mut out, native);
    push_str(&mut out, CURRICULUM_DOMAIN_6);
    push_str(&mut out, target);
    push_str(&mut out, CURRICULUM_DOMAIN_7);
    push_str(&mut out, target);
    push_str(&mut out, CURRICULUM_DOMAIN_8);
    push_decimal(&mut out, count);
    push_str(&mut out, CURRICULUM_DOMAIN_9);
    push_str(&mut out, target);
    push_str(&mut out, CURRICULUM_DOMAIN_10);
    push_str(&mut out, level);
    push_str(&mut out, CURRICULUM_DOMAIN_11);
    push_str(&mut out, difficulty);
    push_str(&mut out, CURRICULUM_DOMAIN_12);
    push_str(&mut out, level);
    push_str(&mut out, CURRICULUM_DOMAIN_13);
    push_str(&mut out, domain);
    push_str(&mut out, CURRICULUM_DOMAIN_14);
    push_str(&mut out, difficulty);
    push_str(&mut out, CURRICULUM_DOMAIN_15);
    push_str(&mut out, level);
    push_str(&mut out, CURRICULUM_DOMAIN_16);
    push_str(&mut out, domain);
    push_str(&mut out, CURRICULUM_DOMAIN_17);
    push_str(&mut out, target);
    push_str(&mut out, CURRICULUM_DOMAIN_18);
    push_str(&mut out, native);
    push_str(&mut out, CURRICULUM_DOMAIN_19);
    push_str(&mut out, native);
    push_str(&mut out, CURRICULUM_DOMAIN_20);
    push_str(&mut out, target);
    push_str(&mut out, CURRICULUM_DOMAIN_21);
    push_str(&mut out, target);
    push_str(&mut out, CURRICULUM_DOMAIN_22);
    push_str(&mut out, native);
    push_str(&mut out, CURRICULUM_DOMAIN_23);
    push_str(&mut out, domain);
    push_str(&mut out, CURRICULUM_DOMAIN_24);
    out
}

pub const NEW_TOPIC_0: &'static str = "You are expanding a language learning curriculum for ";
pub const NEW_TOPIC_1: &'static str = " for a ";
pub const NEW_TOPIC_2: &'static str = " speaker.\nThe learner's current CEFR level is ";
pub const NEW_TOPIC_3: &'static str = ".\n\nGenerate a curriculum topic based on this learner error:\n- Proposed name: ";
pub const NEW_TOPIC_4: &'static str = "\n- Proposed description: ";
pub const NEW_TOPIC_5: &'static str = "\n- Proposed CEFR level: ";
pub const NEW_TOPIC_6: &'static str = "\n\nReturn a JSON object:\n{ \"id\": \"kebab-case-id\", \"name\": \"...\", \
    \"description\": \"...\", \"difficulty\": \"beginner\" | \"intermediate\" | \
    \"advanced\", \"level\": \"A1\" | \"A2\" | \"B1\" | \"B2\" | \"C1\" | \"C2\", \
    \"tags\": string[], \"targetLang\": \"";
pub const NEW_TOPIC_7: &'static str = "\", \"nativeLang\": \"";
pub const NEW_TOPIC_8: &'static str = "\", \"version\": 1 }\n\nThe id must be unique kebab-case. The name should be \
    2-6 words. The description should be 1-2 sentences. The difficulty must match \
    the CEFR level.\n\nCRITICAL: write each topic's \"name\" and \"description\" in ";
pub const NEW_TOPIC_9: &'static str = " (the student's native language). Only linguistic examples may be in ";
pub const NEW_TOPIC_10: &'static str = ".\n\nRespond ONLY with the JSON object. No markdown code fences.";

/// The prompt asking for a curriculum topic built from a topic that an analysis proposed.
pub open spec fn new_topic_prompt_spec(target: Seq<char>, native: Seq<char>, cefr: Seq<char>, name: Seq<char>, description: Seq<char>, level: Seq<char>) -> Seq<char> {
    NEW_TOPIC_0@
        + target
        + NEW_TOPIC_1@
        + native
        + NEW_TOPIC_2@
        + cefr
        + NEW_TOPIC_3@
        + name
        + NEW_TOPIC_4@
        + description
        + NEW_TOPIC_5@
        + level
        + NEW_TOPIC_6@
        + target
        + NEW_TOPIC_7@
        + native
        + NEW_TOPIC_8@
        + native
        + NEW_TOPIC_9@
        + target
        + NEW_TOPIC_10@
}

fn render_new_topic(target: &str, native: &str, cefr: &str, name: &str, description: &str, level: &str) -> (out: String)
    ensures
        out@ == new_topic_prompt_spec(target@, native@, cefr@, name@, description@, level@),
{
    let mut out = String::new();
    push_str(&mut out, NEW_TOPIC_0);
    push_str(&mut out, target);
    push_str(&mut out, NEW_TOPIC_1);
    push_str(&mut out, native);
    push_str(&mut out, NEW_TOPIC_2);
    push_str(&mut out, cefr);
    push_str(&mut out, NEW_TOPIC_3);
    push_str(&mut out, name);
    push_str(&mut out, NEW_TOPIC_4);
    push_str(&mut out, description);
    push_str(&mut out, NEW_TOPIC_5);
    push_str(&mut out, level);
    push_str(&mut out, NEW_TOPIC_6);
    push_str(&mut out, target);
    push_str(&mut out, NEW_TOPIC_7);
    push_str(&mut out, native);
    push_str(&mut out, NEW_TOPIC_8);
    push_str(&mut out, native);
    push_str(&mut out, NEW_TOPIC_9);
    push_str(&mut out, target);
    push_str(&mut out, NEW_TOPIC_10);
    out
}

/// The prompt for a focused review of `topic`.
pub fn build_topic_review_prompt(profile: &UserProfile, topic: &Topic) -> (r: String)
    ensures
        r@ == topic_review_prompt_spec(
            profile.target_language@,
            profile.native_language@,
            topic.name@,
            topic.description@,
        ),
{
    render_topic_review(
        profile.target_language.as_str(),
        profile.native_language.as_str(),
        topic.name.as_str(),
        topic.description.as_str(),
    )
}

/// The prompt asking for the metadata of a topic known only by its id; the
/// learner's level is their self-assessed one, "beginner" when unknown.
pub fn build_topic_metadata_prompt(topic_id: &str, profile: &UserProfile) -> (r: String)
    ensures
        r@ == topic_metadata_prompt_spec(
            topic_id@,
            profile.target_language@,
            profile.native_language@,
            text_or(profile.self_assessed_cefr, "beginner"@),
        ),
{
    let cefr: &str = match &profile.self_assessed_cefr {
        Some(c) => c.as_str(),
        None => "beginner",
    };
    render_topic_metadata(
        topic_id,
        profile.target_language.as_str(),
        profile.native_language.as_str(),
        cefr,
    )
}

pub const LEVEL_AGE_0: &'static str = "The student is ";
pub const LEVEL_AGE_1: &'static str = " years old. Avoid school, kindergarten, or other child-specific scenarios \
    unless the age makes them clearly relevant.";
pub const LEVEL_AGE_UNKNOWN: &'static str = "The student's age is not specified; keep contexts neutral and broadly \
    applicable.";

/// The sentence on the learner's age in the curriculum level prompt.
pub open spec fn level_age_hint_spec(age: Option<u32>) -> Seq<char> {
    match age {
        Some(a) => LEVEL_AGE_0@ + decimal(a as nat) + LEVEL_AGE_1@,
        None => LEVEL_AGE_UNKNOWN@,
    }
}

/// The numbered line of the domain at index `i`: "{i + 1}. {name} — {description}".
pub open spec fn domain_line(i: int) -> Seq<char> {
    decimal((i + 1) as nat) + ". "@ + domain_names()[i] + " — "@ + domain_descriptions()[i]
}

/// All domain lines, one per curriculum domain.
pub open spec fn domain_lines() -> Seq<Seq<char>> {
    Seq::new(8, |i: int| domain_line(i))
}

fn render_domain_list() -> (r: String)
    ensures
        r@ == joined(domain_lines(), "\n"@),
{
    let domains = curriculum_domain_descriptions();
    let ghost lines = domain_lines();
    let mut out = String::new();
    let mut i: usize = 0;
    while i < domains.len()
        invariant
            domains@.len() == 8,
            forall|j: int|
                0 <= j < 8 ==> (#[trigger] domains@[j]).0@ == domain_names()[j] && domains@[j].1@
                    == domain_descriptions()[j],
            i <= 8,
            lines == domain_lines(),
            out@ == joined(lines.take(i as int), "\n"@),
        decreases 8 - i,
    {
        proof {
            lemma_joined_extend(lines, "\n"@, i as int);
        }
        let ghost before = out@;
        if i > 0 {
            push_str(&mut out, "\n");
        }
        let ghost mid = out@;
        let (name, description) = domains[i];
        push_decimal(&mut out, (i + 1) as u64);
        push_str(&mut out, ". ");
        push_str(&mut out, name);
        push_str(&mut out, " — ");
        push_str(&mut out, description);
        assert(out@ =~= mid + domain_line(i as int));
        i = i + 1;
    }
    assert(lines.take(8) =~= lines);
    out
}

/// The prompt asking for the topics that lead a learner from
/// `previous_level` ("beginner" when absent) to `level`, covering every
/// curriculum domain.
pub fn build_curriculum_level_prompt(
    profile: &UserProfile,
    level: &str,
    previous_level: Option<&str>,
    count: usize,
) -> (r: String)
    ensures
        r@ == curriculum_level_prompt_spec(
            profile.target_language@,
            profile.native_language@,
            level_age_hint_spec(profile.age),
            count as nat,
            match previous_level {
                Some(p) => p@,
                None => "beginner"@,
            },
            level@,
            cefr_to_difficulty_spec(level@),
            joined(domain_lines(), "\n"@),
        ),
{
    let difficulty = cefr_to_difficulty(level);
    let previous: &str = match previous_level {
        Some(p) => p,
        None => "beginner",
    };
    let domains = render_domain_list();
    let mut age_hint = String::new();
    match profile.age {
        Some(age) => {
            push_str(&mut age_hint, LEVEL_AGE_0);
            push_decimal(&mut age_hint, age as u64);
            push_str(&mut age_hint, LEVEL_AGE_1);
        },
        None => {
            push_str(&mut age_hint, LEVEL_AGE_UNKNOWN);
        },
    }
    render_curriculum_level(
        profile.target_language.as_str(),
        profile.native_language.as_str(),
        age_hint.as_str(),
        count as u64,
        previous,
        level,
        difficulty,
        domains.as_str(),
    )
}

/// The prompt asking for topics in the domains that a level lacks.
pub fn build_curriculum_gap_prompt(profile: &UserProfile, level: &str, missing_domains: &[&str]) -> (r: String)
    ensures
        r@ == curriculum_gap_prompt_spec(
            profile.target_language@,
            profile.native_language@,
            level@,
            cefr_to_difficulty_spec(level@),
            joined(str_views(missing_domains@), ", "@),
        ),
{
    let difficulty = cefr_to_difficulty(level);
    let domains = join_strs(missing_domains, ", ");
    render_curriculum_gap(
        profile.target_language.as_str(),
        profile.native_language.as_str(),
        level,
        difficulty,
        domains.as_str(),
    )
}

/// The prompt asking for `count` topics of a single domain.
pub fn build_curriculum_domain_prompt(
    profile: &UserProfile,
    level: &str,
    domain: &str,
    domain_description: &str,
    count: usize,
) -> (r: String)
    ensures
        r@ == curriculum_domain_prompt_spec(
            profile.target_language@,
            profile.native_language@,
            level@,
            cefr_to_difficulty_spec(level@),
            domain@,
            domain_description@,
            count as nat,
        ),
{
    let difficulty = cefr_to_difficulty(level);
    render_curriculum_domain(
        profile.target_language.as_str(),
        profile.native_language.as_str(),
        level,
        difficulty,
        domain,
        domain_description,
        count as u64,
    )
}

/// The prompt asking for a curriculum topic built from a topic that an
/// analysis proposed. The learner's level is the proposed topic's level,
/// else their self-assessed one, else "A1"; the proposed level is shown as
/// "A1" when absent.
pub fn build_new_topic_metadata_prompt(profile: &UserProfile, new_topic: &NewTopicRef) -> (r: String)
    ensures
        r@ == new_topic_prompt_spec(
            profile.target_language@,
            profile.native_language@,
            match new_topic.level {
                Some(l) => l@,
                None => text_or(profile.self_assessed_cefr, "A1"@),
            },
            new_topic.name@,
            new_topic.description@,
            text_or(new_topic.level, "A1"@),
        ),
{
    let cefr: &str = match &new_topic.level {
        Some(l) => l.as_str(),
        None => match &profile.self_assessed_cefr {
            Some(c) => c.as_str(),
            None => "A1",
        },
    };
    let proposed_level: &str = match &new_topic.level {
        Some(l) => l.as_str(),
        None => "A1",
    };
    render_new_topic(
        profile.target_language.as_str(),
        profile.native_language.as_str(),
        cefr,
        new_topic.name.as_str(),
        new_topic.description.as_str(),
        proposed_level,
    )
}

pub const EXERCISE_BLOCK_0: &'static str = "Exercise ";
pub const EXERCISE_BLOCK_1: &'static str = ":\nOriginal (";
pub const EXERCISE_BLOCK_2: &'static str = "): ";
pub const EXERCISE_BLOCK_3: &'static str = "\nExpected translation: ";
pub const EXERCISE_BLOCK_4: &'static str = "\nStudent translation: ";

/// The block of the analysis prompt that shows one exercise (numbered from 1) and the learner's answer.
pub open spec fn exercise_block_spec(number: nat, native: Seq<char>, sentence: Seq<char>, expected: Seq<char>, answer: Seq<char>) -> Seq<char> {
    EXERCISE_BLOCK_0@
        + decimal(number)
        + EXERCISE_BLOCK_1@
        + native
        + EXERCISE_BLOCK_2@
        + sentence
        + EXERCISE_BLOCK_3@
        + expected
        + EXERCISE_BLOCK_4@
        + answer
}

fn render_exercise_block(number: u64, native: &str, sentence: &str, expected: &str, answer: &str) -> (out: String)
    ensures
        out@ == exercise_block_spec(number as nat, native@, sentence@, expected@, answer@),
{
    let mut out = String::new();
    push_str(&mut out, EXERCISE_BLOCK_0);
    push_decimal(&mut out, number);
    push_str(&mut out, EXERCISE_BLOCK_1);
    push_str(&mut out, native);
    push_str(&mut out, EXERCISE_BLOCK_2);
    push_str(&mut out, sentence);
    push_str(&mut out, EXERCISE_BLOCK_3);
    push_str(&mut out, expected);
    push_str(&mut out, EXERCISE_BLOCK_4);
    push_str(&mut out, answer);
    out
}

pub const TOPIC_LINE_0: &'static str = "- topicId: \"";
pub const TOPIC_LINE_1: &'static str = "\", name: \"";
pub const TOPIC_LINE_2: &'static str = "\"";

/// The line that lists one topic the model may tag.
pub open spec fn topic_line_spec(id: Seq<char>, name: Seq<char>) -> Seq<char> {
    TOPIC_LINE_0@
        + id
        + TOPIC_LINE_1@
        + name
        + TOPIC_LINE_2@
}

fn render_topic_line(id: &str, name: &str) -> (out: String)
    ensures
        out@ == topic_line_spec(id@, name@),
{
    let mut out = String::new();
    push_str(&mut out, TOPIC_LINE_0);
    push_str(&mut out, id);
    push_str(&mut out, TOPIC_LINE_1);
    push_str(&mut out, name);
    push_str(&mut out, TOPIC_LINE_2);
    out
}

pub const BATCH_ANALYSIS_0: &'static str = "You are a strict grammar tutor. The student is a ";
pub const BATCH_ANALYSIS_1: &'static str = " speaker learning ";
pub const BATCH_ANALYSIS_2: &'static str = ". The student translated ";
pub const BATCH_ANALYSIS_3: &'static str = " sentence(s). Evaluate each one for semantic equivalence and correctness, not \
    for matching a single wording.\n\n";
pub const BATCH_ANALYSIS_4: &'static str = "\n\nUse ONLY the following topic IDs when tagging errors. Do not invent new \
    IDs.\n";
pub const BATCH_ANALYSIS_5: &'static str = "\n\nEvaluation rules:\n- Do NOT penalize or report missing accents, diacritics, \
    punctuation marks (¡, ¿, ., ,, etc.), or capitalization differences.\n- Treat \
    \"i\" and \"í\", \"a\" and \"á\", \"e\" and \"é\", etc. as equivalent.\n- \
    Accept synonyms, alternative word order, and natural paraphrases as correct or \
    acceptable.\n- Report an error ONLY when the student's translation is \
    semantically different, grammatically wrong, or misses/adds a meaning-bearing \
    word.\n- Keep feedback concise and actionable.\n- Each error type must be \
    exactly one of: \"critical\" | \"major\" | \"minor\" | \"spelling\".\n- Use \
    type \"spelling\" ONLY for simple typos/misspellings where the intended word is \
    obvious (e.g. \"Everty\" → \"Every\"). Spelling errors affect the score but \
    must NOT produce newTopics.\n- For each error, include `topicIds` from the list \
    above that the error relates to. If the error involves a concept not covered by \
    the list, also include `newTopics` with `name`, `description`, and `level` \
    (CEFR, e.g. \"A1\"). Do NOT include `newTopics` for spelling \
    errors.\n\nSemantic verdict rules:\n- \"correct\" — the translation is fully \
    equivalent and natural.\n- \"acceptable\" — the meaning is preserved but there \
    is a minor stylistic or less natural choice; include a minor or spelling note \
    if relevant.\n- \"needsCorrection\" — the meaning is wrong or grammar is \
    significantly off; list errors.\n\nNew topic rules (CRITICAL):\n- Each newTopic \
    must be a generalizable, reusable grammar or usage pattern that can be \
    practiced through many translation exercises (e.g. an agreement rule, a \
    word-order pattern, a verb conjugation class).\n- AVOID broad, abstract \
    categories such as \"Common Spelling Errors\", \"Grammar Basics\", \
    \"Vocabulary\", \"Advanced Topics\", \"Common Mistakes\", or \
    \"Fundamentals\".\n- AVOID topics tied to a single word or a single word pair. \
    A confusion between specific words (e.g. \"Adjective: Caro vs Rico\") is NOT a \
    curriculum topic: still report it in newTopics with the word-level name, and \
    the app will store it as a vocabulary review item instead of a topic.\n- Good \
    topic examples: \"Adjective gender agreement\", \"Word order in subordinate \
    clauses\", \"Preterite of irregular verbs: venir\", \"Ser vs estar with \
    adjectives\".\n- Bad topic examples: \"Common Spelling Errors\", \"Grammar \
    mistakes\", \"Basic vocabulary\", \"Adjective: Caro vs Rico\".\n- The name \
    should be 2-6 words and describe a concrete rule or pattern.\n- Do NOT create \
    newTopics for spelling-only errors.\n- Do NOT report newTopics for errors fully \
    explained by a single word form (a wrong inflection, agreement, or choice of \
    one word) — these are already captured through usedVocabulary with \
    spellingOk/usageOk false. Report newTopics only for constructions, multi-word \
    patterns, word pairs, or false friends.\n- Every newTopic must be a ";
pub const BATCH_ANALYSIS_6: &'static str = " grammar or usage topic. NEVER create newTopics about any other language.\n- If \
    the student answered in the wrong language (e.g. a language other than ";
pub const BATCH_ANALYSIS_7: &'static str = "), mark the affected words as errors, give the correct ";
pub const BATCH_ANALYSIS_8: &'static str = " translation in the explanation, and do NOT create newTopics for that other \
    language.\n\nVocabulary extraction rules (usedVocabulary):\n- For each \
    sentence, list the CONTENT words (NOUN, VERB, ADJ, ADV, PROPN only) in \
    `usedVocabulary`. Skip function words (articles, prepositions, pronouns, \
    auxiliaries, conjunctions).\n- Words from the expected translation: side \
    \"target\", no spellingOk/usageOk fields.\n- Words from the student's \
    translation: side \"student\", WITH spellingOk and usageOk.\n- spellingOk is \
    false ONLY for a real misspelling; missing accents, diacritics, punctuation, or \
    capitalization do NOT make spellingOk false.\n- usageOk is false when the word \
    is misused: wrong word choice, wrong inflected form, or broken agreement.\n- \
    expectedForm is true when the surface matches a form used in the expected (or \
    an acceptable) translation; target-side entries always have expectedForm \
    true.\n- `lemma` is the dictionary headword, `pos` is the Universal \
    Dependencies POS tag, `feats` are UD morphological features strictly in \
    \"Attr=Val|Attr=Val\" format (e.g. \
    \"Mood=Ind|Number=Sing|Person=3|Tense=Pres\"). Include the full standard UD \
    feature set for the language: always include VerbForm for verbs (e.g. \
    VerbForm=Fin), plus Mood/Tense/Person/Number for finite forms and Gender/Number \
    for nominals, whenever they apply. Use an empty string when no features \
    apply.\n- `cefrLevel`: Estimate approximate CEFR level (A1–C2) for the lemma \
    for a typical adult general learner. Prefer high-frequency / early textbook \
    order. Ignore rare or specialized senses.\n\nReturn a JSON object exactly in \
    this shape:\n{\n  \"sentences\": [\n    {\n      \"sentenceNumber\": 1,\n      \
    \"studentTranslation\": \"...\",\n      \"expectedTranslation\": \"...\",\n      \
    \"acceptableTranslations\": [\"...\", \"...\"],\n      \"semanticVerdict\": \
    \"correct\",\n      \"errors\": [{ \"type\": \"major\", \"pattern\": \"...\", \
    \"explanation\": \"...\", \"topicIds\": [\"...\"], \"newTopics\": [{ \"name\": \
    \"...\", \"description\": \"...\", \"level\": \"A1\" }] }],\n      \
    \"perSentenceFeedback\": [{ \"comment\": \"...\" }],\n      \"usedVocabulary\": \
    [\n        { \"surface\": \"...\", \"lemma\": \"...\", \"pos\": \"NOUN\", \
    \"feats\": \"Gender=Fem|Number=Sing\", \"side\": \"target\", \"expectedForm\": \
    true, \"cefrLevel\": \"A2\" },\n        { \"surface\": \"...\", \"lemma\": \
    \"...\", \"pos\": \"VERB\", \"feats\": \
    \"Mood=Ind|Number=Sing|Person=3|Tense=Pres\", \"side\": \"student\", \
    \"spellingOk\": true, \"usageOk\": true, \"expectedForm\": true, \"cefrLevel\": \
    \"A1\" }\n      ]\n    }\n  ],\n  \"evaluatedTopics\": [{ \"topicId\": \"...\", \
    \"score\": 80.0 }]\n}\n\nThe \"errors\" and \"usedVocabulary\" arrays may be \
    empty. When an error has no known curriculum topic, `topicIds` may be empty; \
    use `newTopics` to suggest a new topic. When `topicIds` is empty and no \
    `newTopics` are given, the error will be treated as affecting all topics \
    practiced in that sentence.\n\nCRITICAL: the top-level object MUST contain the \
    key \"sentences\" with exactly ";
pub const BATCH_ANALYSIS_9: &'static str = " items.\nCRITICAL: explanations and comments must be in ";
pub const BATCH_ANALYSIS_10: &'static str = ".\nCRITICAL: do not include any markdown code fences.";

/// The analysis prompt for `n` answered exercises, given its rendered exercise blocks and topic list.
pub open spec fn batch_analysis_prompt_spec(native: Seq<char>, target: Seq<char>, n: nat, blocks: Seq<char>, topic_list: Seq<char>) -> Seq<char> {
    BATCH_ANALYSIS_0@
        + native
        + BATCH_ANALYSIS_1@
        + target
        + BATCH_ANALYSIS_2@
        + decimal(n)
        + BATCH_ANALYSIS_3@
        + blocks
        + BATCH_ANALYSIS_4@
        + topic_list
        + BATCH_ANALYSIS_5@
        + target
        + BATCH_ANALYSIS_6@
        + target
        + BATCH_ANALYSIS_7@
        + target
        + BATCH_ANALYSIS_8@
        + decimal(n)
        + BATCH_ANALYSIS_9@
        + native
        + BATCH_ANALYSIS_10@
}

fn render_batch_analysis(native: &str, target: &str, n: u64, blocks: &str, topic_list: &str) -> (out: String)
    ensures
        out@ == batch_analysis_prompt_spec(native@, target@, n as nat, blocks@, topic_list@),
{
    let mut out = String::new();
    push_str(&mut out, BATCH_ANALYSIS_0);
    push_str(&mut out, native);
    push_str(&mut out, BATCH_ANALYSIS_1);
    push_str(&mut out, target);
    push_str(&mut out, BATCH_ANALYSIS_2);
    push_decimal(&mut out, n);
    push_str(&mut out, BATCH_ANALYSIS_3);
    push_str(&mut out, blocks);
    push_str(&mut out, BATCH_ANALYSIS_4);
    push_str(&mut out, topic_list);
    push_str(&mut out, BATCH_ANALYSIS_5);
    push_str(&mut out, target);
    push_str(&mut out, BATCH_ANALYSIS_6);
    push_str(&mut out, target);
    push_str(&mut out, BATCH_ANALYSIS_7);
    push_str(&mut out, target);
    push_str(&mut out, BATCH_ANALYSIS_8);
    push_decimal(&mut out, n);
    push_str(&mut out, BATCH_ANALYSIS_9);
    push_str(&mut out, native);
    push_str(&mut out, BATCH_ANALYSIS_10);
    out
}


/// The exercise blocks of the analysis prompt, numbered from 1.
pub open spec fn exercise_blocks(native: Seq<char>, pairs: Seq<(Exercise, String)>) -> Seq<Seq<char>> {
    Seq::new(
        pairs.len(),
        |i: int|
            exercise_block_spec(
                (i + 1) as nat,
                native,
                pairs[i].0.target_sentence@,
                pairs[i].0.expected_translation@,
                pairs[i].1@,
            ),
    )
}

/// One tagging line per topic.
pub open spec fn topic_lines(topics: Seq<Topic>) -> Seq<Seq<char>> {
    Seq::new(topics.len(), |i: int| topic_line_spec(topics[i].id@, topics[i].name@))
}

/// The list of topics the model may tag, one line each.
fn render_topic_list(topics: &[Topic]) -> (r: String)
    ensures
        r@ == joined(topic_lines(topics@), "\n"@),
{
    let ghost lines = topic_lines(topics@);
    let mut out = String::new();
    let mut i: usize = 0;
    while i < topics.len()
        invariant
            i <= topics.len(),
            lines == topic_lines(topics@),
            out@ == joined(lines.take(i as int), "\n"@),
        decreases topics.len() - i,
    {
        proof {
            lemma_joined_extend(lines, "\n"@, i as int);
        }
        if i > 0 {
            push_str(&mut out, "\n");
        }
        let line = render_topic_line(topics[i].id.as_str(), topics[i].name.as_str());
        push_str(&mut out, line.as_str());
        i = i + 1;
    }
    assert(lines.take(topics.len() as int) =~= lines);
    out
}

fn render_exercise_blocks(native: &str, pairs: &[(Exercise, String)]) -> (r: String)
    ensures
        r@ == joined(exercise_blocks(native@, pairs@), "\n\n"@),
{
    let ghost blocks = exercise_blocks(native@, pairs@);
    let mut out = String::new();
    let mut i: usize = 0;
    while i < pairs.len()
        invariant
            i <= pairs.len(),
            blocks == exercise_blocks(native@, pairs@),
            out@ == joined(blocks.take(i as int), "\n\n"@),
        decreases pairs.len() - i,
    {
        proof {
            lemma_joined_extend(blocks, "\n\n"@, i as int);
        }
        if i > 0 {
            push_str(&mut out, "\n\n");
        }
        let (exercise, answer) = &pairs[i];
        let block = render_exercise_block(
            (i + 1) as u64,
            native,
            exercise.target_sentence.as_str(),
            exercise.expected_translation.as_str(),
            answer.as_str(),
        );
        push_str(&mut out, block.as_str());
        i = i + 1;
    }
    assert(blocks.take(pairs.len() as int) =~= blocks);
    out
}

/// The prompt asking the model to evaluate the learner's answers to a batch
/// of exercises.
pub fn build_batch_analysis_prompt(
    profile: &UserProfile,
    pairs: &[(Exercise, String)],
    topics: &[Topic],
) -> (r: String)
    ensures
        r@ == batch_analysis_prompt_spec(
            english_name_spec(profile.native_language@),
            english_name_spec(profile.target_language@),
            pairs@.len(),
            joined(exercise_blocks(english_name_spec(profile.native_language@), pairs@), "\n\n"@),
            joined(topic_lines(topics@), "\n"@),
        ),
{
    let native = english_name(profile.native_language.as_str());
    let blocks = render_exercise_blocks(native, pairs);
    let topic_list = render_topic_list(topics);
    render_batch_analysis(
        native,
        english_name(profile.target_language.as_str()),
        pairs.len() as u64,
        blocks.as_str(),
        topic_list.as_str(),
    )
}

pub const AGE_HINT_0: &'static str = "Student age: ";
pub const AGE_HINT_1: &'static str = ". Use contexts and examples that fit the life experience of a typical ";
pub const AGE_HINT_2: &'static str = "-year-old.";

/// The sentence on the learner's age.
pub open spec fn age_hint_spec(age: nat) -> Seq<char> {
    AGE_HINT_0@
        + decimal(age)
        + AGE_HINT_1@
        + decimal(age)
        + AGE_HINT_2@
}

fn render_age_hint(age: u64) -> (out: String)
    ensures
        out@ == age_hint_spec(age as nat),
{
    let mut out = String::new();
    push_str(&mut out, AGE_HINT_0);
    push_decimal(&mut out, age);
    push_str(&mut out, AGE_HINT_1);
    push_decimal(&mut out, age);
    push_str(&mut out, AGE_HINT_2);
    out
}

pub const ADAPTIVE_HINT_0: &'static str = "Recent session success rate: ";
pub const ADAPTIVE_HINT_1: &'static str = "%. Target success rate: 80%. If recent rate is below 75%, make sentences \
    slightly easier. If recent rate is above 85%, make sentences slightly more \
    challenging. In both cases stay within the sentence-shape limits for ";
pub const ADAPTIVE_HINT_2: &'static str = ".";

/// The paragraph that adapts the difficulty to the recent success rate (in percent).
pub open spec fn adaptive_hint_spec(recent_rate_pct: int, complexity_anchor: Seq<char>) -> Seq<char> {
    ADAPTIVE_HINT_0@
        + signed_decimal(recent_rate_pct)
        + ADAPTIVE_HINT_1@
        + complexity_anchor
        + ADAPTIVE_HINT_2@
}

fn render_adaptive_hint(recent_rate_pct: i32, complexity_anchor: &str) -> (out: String)
    ensures
        out@ == adaptive_hint_spec(recent_rate_pct as int, complexity_anchor@),
{
    let mut out = String::new();
    push_str(&mut out, ADAPTIVE_HINT_0);
    push_signed_decimal(&mut out, recent_rate_pct);
    push_str(&mut out, ADAPTIVE_HINT_1);
    push_str(&mut out, complexity_anchor);
    push_str(&mut out, ADAPTIVE_HINT_2);
    out
}

pub const COMPLEXITY_HINT_0: &'static str = "Exercise complexity level: ";
pub const COMPLEXITY_HINT_1: &'static str = " (from the target topics). Sentence complexity MUST match CEFR level ";
pub const COMPLEXITY_HINT_2: &'static str = ". This overrides the student's self-assessed level: the self-assessed level \
    describes the student overall, but these exercises practice ";
pub const COMPLEXITY_HINT_3: &'static str = " material.\nSentence shape for ";
pub const COMPLEXITY_HINT_4: &'static str = ": ";

/// The paragraph that anchors the exercises to the CEFR `level` of the target topics, with its sentence shape.
pub open spec fn complexity_level_hint_spec(level: Seq<char>, shape: Seq<char>) -> Seq<char> {
    COMPLEXITY_HINT_0@
        + level
        + COMPLEXITY_HINT_1@
        + level
        + COMPLEXITY_HINT_2@
        + level
        + COMPLEXITY_HINT_3@
        + level
        + COMPLEXITY_HINT_4@
        + shape
}

fn render_complexity_level_hint(level: &str, shape: &str) -> (out: String)
    ensures
        out@ == complexity_level_hint_spec(level@, shape@),
{
    let mut out = String::new();
    push_str(&mut out, COMPLEXITY_HINT_0);
    push_str(&mut out, level);
    push_str(&mut out, COMPLEXITY_HINT_1);
    push_str(&mut out, level);
    push_str(&mut out, COMPLEXITY_HINT_2);
    push_str(&mut out, level);
    push_str(&mut out, COMPLEXITY_HINT_3);
    push_str(&mut out, level);
    push_str(&mut out, COMPLEXITY_HINT_4);
    push_str(&mut out, shape);
    out
}

pub const LEARNING_ITEMS_HINT_0: &'static str = "\nThe following learning items need extra practice. Naturally include EACH of \
    them in at least one exercise, distributing them across different exercises, \
    without distorting the target topics:\n";
pub const LEARNING_ITEMS_HINT_1: &'static str = "\n";

/// The block that asks for the listed learning items.
pub open spec fn learning_items_block_spec(items: Seq<char>) -> Seq<char> {
    LEARNING_ITEMS_HINT_0@
        + items
        + LEARNING_ITEMS_HINT_1@
}

fn render_learning_items_block(items: &str) -> (out: String)
    ensures
        out@ == learning_items_block_spec(items@),
{
    let mut out = String::new();
    push_str(&mut out, LEARNING_ITEMS_HINT_0);
    push_str(&mut out, items);
    push_str(&mut out, LEARNING_ITEMS_HINT_1);
    out
}

pub const VOCABULARY_HINT_0: &'static str = "\nThe following words need extra practice. Include each of these words if it \
    fits naturally, distributing them across different exercises and without \
    distorting the target topics; skip a word rather than distort the sentence:\n";
pub const VOCABULARY_HINT_1: &'static str = "\n";

/// The block that asks for the listed words.
pub open spec fn vocabulary_block_spec(words: Seq<char>) -> Seq<char> {
    VOCABULARY_HINT_0@
        + words
        + VOCABULARY_HINT_1@
}

fn render_vocabulary_block(words: &str) -> (out: String)
    ensures
        out@ == vocabulary_block_spec(words@),
{
    let mut out = String::new();
    push_str(&mut out, VOCABULARY_HINT_0);
    push_str(&mut out, words);
    push_str(&mut out, VOCABULARY_HINT_1);
    out
}

pub const EXERCISE_0: &'static str = "You are a language tutor. Generate ";
pub const EXERCISE_1: &'static str = " connected translation exercises from ";
pub const EXERCISE_2: &'static str = " to ";
pub const EXERCISE_3: &'static str = ".\n\nTarget topics: ";
pub const EXERCISE_4: &'static str = "\nTarget difficulties: ";
pub const EXERCISE_5: &'static str = "\nSide topics: ";
pub const EXERCISE_6: &'static str = "\nNative language: ";
pub const EXERCISE_7: &'static str = "\n";
pub const EXERCISE_8: &'static str = "\n";
pub const EXERCISE_9: &'static str = "\n";
pub const EXERCISE_10: &'static str = "\n";
pub const EXERCISE_11: &'static str = "\n\nUse ONLY the following topic IDs when tagging exercises. Do not invent new \
    IDs.\n";
pub const EXERCISE_12: &'static str = "\n\nThe ";
pub const EXERCISE_13: &'static str = " sentences should form a short coherent dialogue or mini-story while respecting \
    the sentence-shape limits stated above. Keep each sentence natural and focused \
    on the target topics (or general vocabulary if no topics are specified).\n\nFor \
    each exercise output a JSON object with these fields:\n- id: unique string\n- \
    targetSentence: sentence in ";
pub const EXERCISE_14: &'static str = " for the student to translate\n- expectedTranslation: one natural correct \
    translation in ";
pub const EXERCISE_15: &'static str = "\n- acceptableTranslations: array of 1–3 additional valid translations in ";
pub const EXERCISE_16: &'static str = " that are semantically equivalent but may use different wording, synonyms, or \
    word order. Include only genuinely equivalent variants.\n- targetTopicIds: \
    array of target topic ids from the list above (use empty array if none \
    apply)\n- sideTopicIds: array of side topic ids from the list above (use empty \
    array if none apply)\n- expectedPatterns: grammar patterns the student should \
    use\n- hint: optional short hint";

pub const VOCABULARY_REQUEST_0: &'static str = "\n\nAlso list the vocabulary of the exercises in an array \
    under the key \"vocabulary\": one entry for each CONTENT word (NOUN, VERB, ADJ, ADV, PROPN only) \
    in ";
pub const VOCABULARY_REQUEST_1: &'static str = " that appears in the expectedTranslation fields, with these \
    fields:\n- lemma: the dictionary form of the word\n- surface: the word exactly as it appears in \
    the sentence\n- pos: its Universal Dependencies part-of-speech tag\n- cefrLevel: its estimated CEFR \
    level\n- translation: its translation into ";
pub const VOCABULARY_REQUEST_2: &'static str = "\nSkip function words (articles, prepositions, pronouns, \
    auxiliaries, conjunctions). The targetSentence fields are in ";
pub const VOCABULARY_REQUEST_3: &'static str = ": never extract words from targetSentence.";
pub const WARMUP_REQUEST_0: &'static str = "\n\nFor the words that need extra practice, also output an \
    array under the key \"warmup\" with one entry per word listed above, with these fields:\n- lemma: \
    the word as listed\n- pos: its Universal Dependencies part-of-speech tag\n- cefrLevel: its \
    estimated CEFR level\n- translation: its translation into ";
pub const WARMUP_REQUEST_1: &'static str = "\n- example: a short example sentence in ";
pub const WARMUP_REQUEST_2: &'static str = " that uses the word";
pub const OUTPUT_REQUEST_0: &'static str = "\n\nOutput a JSON object with the key \"exercises\" containing \
    an array of the exercise objects and the key \"vocabulary\"";
pub const OUTPUT_REQUEST_WARMUP: &'static str = ", and the key \"warmup\"";
pub const OUTPUT_REQUEST_1: &'static str = ".";

/// What the prompt asks the model to return besides the exercises: the
/// content vocabulary of the expected translations, always; the warm-up
/// cards of the words that need extra practice, only when there are some.
pub open spec fn response_request_spec(native: Seq<char>, target: Seq<char>, warmup: bool) -> Seq<char> {
    VOCABULARY_REQUEST_0@ + target + VOCABULARY_REQUEST_1@ + native + VOCABULARY_REQUEST_2@ + native
        + VOCABULARY_REQUEST_3@ + (if warmup {
        WARMUP_REQUEST_0@ + native + WARMUP_REQUEST_1@ + target + WARMUP_REQUEST_2@
    } else {
        Seq::empty()
    }) + OUTPUT_REQUEST_0@ + (if warmup {
        OUTPUT_REQUEST_WARMUP@
    } else {
        Seq::empty()
    }) + OUTPUT_REQUEST_1@
}

fn render_response_request(native: &str, target: &str, warmup: bool) -> (out: String)
    ensures
        out@ == response_request_spec(native@, target@, warmup),
{
    let mut out = String::new();
    push_str(&mut out, VOCABULARY_REQUEST_0);
    push_str(&mut out, target);
    push_str(&mut out, VOCABULARY_REQUEST_1);
    push_str(&mut out, native);
    push_str(&mut out, VOCABULARY_REQUEST_2);
    push_str(&mut out, native);
    push_str(&mut out, VOCABULARY_REQUEST_3);
    if warmup {
        push_str(&mut out, WARMUP_REQUEST_0);
        push_str(&mut out, native);
        push_str(&mut out, WARMUP_REQUEST_1);
        push_str(&mut out, target);
        push_str(&mut out, WARMUP_REQUEST_2);
    }
    push_str(&mut out, OUTPUT_REQUEST_0);
    if warmup {
        push_str(&mut out, OUTPUT_REQUEST_WARMUP);
    }
    push_str(&mut out, OUTPUT_REQUEST_1);
    out
}

/// The exercise prompt, given its rendered parts.
pub open spec fn exercise_prompt_spec(count: nat, native: Seq<char>, target: Seq<char>, target_names: Seq<char>, difficulty_hint: Seq<char>, side_names: Seq<char>, cefr_hint: Seq<char>, age_hint: Seq<char>, adaptive_hint: Seq<char>, complexity_hint: Seq<char>, topic_list: Seq<char>, learning_items_hint: Seq<char>, vocabulary_hint: Seq<char>, response_request: Seq<char>) -> Seq<char> {
    EXERCISE_0@
        + decimal(count)
        + EXERCISE_1@
        + native
        + EXERCISE_2@
        + target
        + EXERCISE_3@
        + target_names
        + EXERCISE_4@
        + difficulty_hint
        + EXERCISE_5@
        + side_names
        + EXERCISE_6@
        + native
        + EXERCISE_7@
        + cefr_hint
        + EXERCISE_8@
        + age_hint
        + EXERCISE_9@
        + adaptive_hint
        + EXERCISE_10@
        + complexity_hint
        + EXERCISE_11@
        + topic_list
        + learning_items_hint
        + vocabulary_hint
        + EXERCISE_12@
        + decimal(count)
        + EXERCISE_13@
        + native
        + EXERCISE_14@
        + target
        + EXERCISE_15@
        + target
        + EXERCISE_16@
        + response_request
}

fn render_exercise_prompt(count: u64, native: &str, target: &str, target_names: &str, difficulty_hint: &str, side_names: &str, cefr_hint: &str, age_hint: &str, adaptive_hint: &str, complexity_hint: &str, topic_list: &str, learning_items_hint: &str, vocabulary_hint: &str, response_request: &str) -> (out: String)
    ensures
        out@ == exercise_prompt_spec(count as nat, native@, target@, target_names@, difficulty_hint@, side_names@, cefr_hint@, age_hint@, adaptive_hint@, complexity_hint@, topic_list@, learning_items_hint@, vocabulary_hint@, response_request@),
{
    let mut out = String::new();
    push_str(&mut out, EXERCISE_0);
    push_decimal(&mut out, count);
    push_str(&mut out, EXERCISE_1);
    push_str(&mut out, native);
    push_str(&mut out, EXERCISE_2);
    push_str(&mut out, target);
    push_str(&mut out, EXERCISE_3);
    push_str(&mut out, target_names);
    push_str(&mut out, EXERCISE_4);
    push_str(&mut out, difficulty_hint);
    push_str(&mut out, EXERCISE_5);
    push_str(&mut out, side_names);
    push_str(&mut out, EXERCISE_6);
    push_str(&mut out, native);
    push_str(&mut out, EXERCISE_7);
    push_str(&mut out, cefr_hint);
    push_str(&mut out, EXERCISE_8);
    push_str(&mut out, age_hint);
    push_str(&mut out, EXERCISE_9);
    push_str(&mut out, adaptive_hint);
    push_str(&mut out, EXERCISE_10);
    push_str(&mut out, complexity_hint);
    push_str(&mut out, EXERCISE_11);
    push_str(&mut out, topic_list);
    push_str(&mut out, learning_items_hint);
    push_str(&mut out, vocabulary_hint);
    push_str(&mut out, EXERCISE_12);
    push_decimal(&mut out, count);
    push_str(&mut out, EXERCISE_13);
    push_str(&mut out, native);
    push_str(&mut out, EXERCISE_14);
    push_str(&mut out, target);
    push_str(&mut out, EXERCISE_15);
    push_str(&mut out, target);
    push_str(&mut out, EXERCISE_16);
    push_str(&mut out, response_request);
    out
}


/// The CEFR level a topic is practised at: its own level in upper case when
/// that is a CEFR level, else the level its difficulty stands for.
pub open spec fn topic_level_spec(t: Topic) -> Option<Seq<char>> {
    match t.level {
        Some(l) => if cefr_to_numeric_spec(l@) is Some {
            Some(upper_text(l@))
        } else {
            difficulty_to_cefr_spec(t.difficulty@)
        },
        None => difficulty_to_cefr_spec(t.difficulty@),
    }
}

fn topic_level(t: &Topic) -> (r: Option<String>)
    ensures
        opt_seq(r) == topic_level_spec(*t),
{
    if let Some(l) = &t.level {
        if cefr_to_numeric(l.as_str()).is_some() {
            return Some(to_uppercase(l.as_str()));
        }
    }
    difficulty_to_cefr(t.difficulty.as_str())
}

/// The rank of a CEFR level (0 when it is none).
pub open spec fn level_rank(l: Seq<char>) -> int {
    match cefr_to_numeric_spec(l) {
        Some(n) => n as int,
        None => 0,
    }
}

/// The highest level among the topics' levels, the last one among equals
/// (the choice of `Iterator::max_by_key`); `None` when no topic has one.
pub open spec fn effective_level_spec(topics: Seq<Topic>) -> Option<Seq<char>>
    decreases topics.len(),
{
    if topics.len() == 0 {
        None
    } else {
        let prev = effective_level_spec(topics.drop_last());
        match topic_level_spec(topics.last()) {
            None => prev,
            Some(l) => match prev {
                Some(p) => if level_rank(l) >= level_rank(p) {
                    Some(l)
                } else {
                    Some(p)
                },
                None => Some(l),
            },
        }
    }
}

fn effective_level(topics: &[Topic]) -> (r: Option<String>)
    ensures
        opt_seq(r) == effective_level_spec(topics@),
{
    let mut best: Option<String> = None;
    let mut best_rank: i32 = 0;
    let mut i: usize = 0;
    while i < topics.len()
        invariant
            i <= topics.len(),
            opt_seq(best) == effective_level_spec(topics@.take(i as int)),
            best matches Some(b) ==> best_rank == level_rank(b@),
        decreases topics.len() - i,
    {
        assert(topics@.take(i + 1).drop_last() =~= topics@.take(i as int));
        let level = topic_level(&topics[i]);
        if let Some(l) = level {
            let rank: i32 = match cefr_to_numeric(l.as_str()) {
                Some(n) => n,
                None => 0,
            };
            if best.is_none() || rank >= best_rank {
                best = Some(l);
                best_rank = rank;
            }
        }
        i = i + 1;
    }
    assert(topics@.take(topics.len() as int) =~= topics@);
    best
}

/// The names of the topics.
pub open spec fn topic_names(topics: Seq<Topic>) -> Seq<Seq<char>> {
    Seq::new(topics.len(), |i: int| topics[i].name@)
}

/// The topics' names joined with ", ", or `fallback` when that is empty.
pub open spec fn names_or(topics: Seq<Topic>, fallback: Seq<char>) -> Seq<char> {
    let names = joined(topic_names(topics), ", "@);
    if names.len() == 0 {
        fallback
    } else {
        names
    }
}

fn join_topic_names(topics: &[Topic]) -> (r: String)
    ensures
        r@ == joined(topic_names(topics@), ", "@),
{
    let ghost names = topic_names(topics@);
    let mut out = String::new();
    let mut i: usize = 0;
    while i < topics.len()
        invariant
            i <= topics.len(),
            names == topic_names(topics@),
            out@ == joined(names.take(i as int), ", "@),
        decreases topics.len() - i,
    {
        proof {
            lemma_joined_extend(names, ", "@, i as int);
        }
        if i > 0 {
            push_str(&mut out, ", ");
        }
        push_str(&mut out, topics[i].name.as_str());
        i = i + 1;
    }
    assert(names.take(topics.len() as int) =~= names);
    out
}

fn names_or_fallback(topics: &[Topic], fallback: &str) -> (r: String)
    ensures
        r@ == names_or(topics@, fallback@),
{
    let names = join_topic_names(topics);
    if names.as_str().is_empty() {
        copy_str(fallback)
    } else {
        names
    }
}

/// One entry of the target difficulties: the topic's name, difficulty and
/// level ("unknown" when it has none).
pub open spec fn difficulty_item_spec(t: Topic) -> Seq<char> {
    t.name@ + " (difficulty: "@ + t.difficulty@ + ", CEFR: "@ + match topic_level_spec(t) {
        Some(l) => l,
        None => "unknown"@,
    } + ")"@
}

/// The target difficulties: "general" without target topics, else one entry
/// per topic joined with ", ".
pub open spec fn difficulty_hint_spec(targets: Seq<Topic>) -> Seq<char> {
    if targets.len() == 0 {
        "general"@
    } else {
        joined(Seq::new(targets.len(), |i: int| difficulty_item_spec(targets[i])), ", "@)
    }
}

fn render_difficulty_hint(targets: &[Topic]) -> (r: String)
    ensures
        r@ == difficulty_hint_spec(targets@),
{
    if targets.len() == 0 {
        return copy_str("general");
    }
    let ghost items = Seq::new(targets@.len(), |i: int| difficulty_item_spec(targets@[i]));
    let mut out = String::new();
    let mut i: usize = 0;
    while i < targets.len()
        invariant
            i <= targets.len(),
            items == Seq::new(targets@.len(), |i: int| difficulty_item_spec(targets@[i])),
            out@ == joined(items.take(i as int), ", "@),
        decreases targets.len() - i,
    {
        proof {
            lemma_joined_extend(items, ", "@, i as int);
        }
        if i > 0 {
            push_str(&mut out, ", ");
        }
        let ghost mid = out@;
        let t = &targets[i];
        push_str(&mut out, t.name.as_str());
        push_str(&mut out, " (difficulty: ");
        push_str(&mut out, t.difficulty.as_str());
        push_str(&mut out, ", CEFR: ");
        match topic_level(t) {
            Some(l) => push_str(&mut out, l.as_str()),
            None => push_str(&mut out, "unknown"),
        }
        push_str(&mut out, ")");
        assert(out@ =~= mid + difficulty_item_spec(targets@[i as int]));
        i = i + 1;
    }
    assert(items.take(targets.len() as int) =~= items);
    out
}

pub const CEFR_HINT: &'static str = "Proficiency level (self-assessed): ";

/// The line on the learner's self-assessed level, empty when unknown.
pub open spec fn cefr_hint_spec(cefr: Option<String>) -> Seq<char> {
    match cefr {
        Some(c) => CEFR_HINT@ + c@,
        None => Seq::empty(),
    }
}

/// What the adaptive paragraph anchors the sentence shape to.
pub open spec fn anchor_spec(effective: Option<Seq<char>>) -> Seq<char> {
    match effective {
        Some(l) => l,
        None => "the student's CEFR level"@,
    }
}

pub const COMPLEXITY_UNANCHORED: &'static str = "Adjust the overall complexity to the student's CEFR level if provided.";

/// The complexity paragraph: anchored to the effective level when there is
/// one.
pub open spec fn complexity_hint_spec(effective: Option<Seq<char>>) -> Seq<char> {
    match effective {
        Some(l) => complexity_level_hint_spec(l, sentence_shape_spec(l)),
        None => COMPLEXITY_UNANCHORED@,
    }
}

/// One line of the forced learning items.
pub open spec fn learning_item_line(item: LearningItem) -> Seq<char> {
    "- "@ + item.name@ + " ("@ + item.description@ + ")"@
}

/// The learning items block, empty when no item is forced.
pub open spec fn learning_items_hint_spec(items: Seq<LearningItem>) -> Seq<char> {
    if items.len() == 0 {
        Seq::empty()
    } else {
        learning_items_block_spec(
            joined(Seq::new(items.len(), |i: int| learning_item_line(items[i])), "\n"@),
        )
    }
}

fn render_learning_items_hint(items: &[LearningItem]) -> (r: String)
    ensures
        r@ == learning_items_hint_spec(items@),
{
    if items.len() == 0 {
        return String::new();
    }
    let ghost lines = Seq::new(items@.len(), |i: int| learning_item_line(items@[i]));
    let mut out = String::new();
    let mut i: usize = 0;
    while i < items.len()
        invariant
            i <= items.len(),
            lines == Seq::new(items@.len(), |i: int| learning_item_line(items@[i])),
            out@ == joined(lines.take(i as int), "\n"@),
        decreases items.len() - i,
    {
        proof {
            lemma_joined_extend(lines, "\n"@, i as int);
        }
        if i > 0 {
            push_str(&mut out, "\n");
        }
        let ghost mid = out@;
        push_str(&mut out, "- ");
        push_str(&mut out, items[i].name.as_str());
        push_str(&mut out, " (");
        push_str(&mut out, items[i].description.as_str());
        push_str(&mut out, ")");
        assert(out@ =~= mid + learning_item_line(items@[i as int]));
        i = i + 1;
    }
    assert(lines.take(items.len() as int) =~= lines);
    render_learning_items_block(out.as_str())
}

/// One line of the forced vocabulary: the word, with its translation in
/// brackets when it has one.
pub open spec fn vocabulary_line(l: Lemma) -> Seq<char> {
    if l.translation@.len() == 0 {
        "- "@ + l.lemma@
    } else {
        "- "@ + l.lemma@ + " ("@ + l.translation@ + ")"@
    }
}

/// The vocabulary block, empty when no word is forced.
pub open spec fn vocabulary_hint_spec(words: Seq<Lemma>) -> Seq<char> {
    if words.len() == 0 {
        Seq::empty()
    } else {
        vocabulary_block_spec(joined(Seq::new(words.len(), |i: int| vocabulary_line(words[i])), "\n"@))
    }
}

fn render_vocabulary_hint(words: &[Lemma]) -> (r: String)
    ensures
        r@ == vocabulary_hint_spec(words@),
{
    if words.len() == 0 {
        return String::new();
    }
    let ghost lines = Seq::new(words@.len(), |i: int| vocabulary_line(words@[i]));
    let mut out = String::new();
    let mut i: usize = 0;
    while i < words.len()
        invariant
            i <= words.len(),
            lines == Seq::new(words@.len(), |i: int| vocabulary_line(words@[i])),
            out@ == joined(lines.take(i as int), "\n"@),
        decreases words.len() - i,
    {
        proof {
            lemma_joined_extend(lines, "\n"@, i as int);
        }
        if i > 0 {
            push_str(&mut out, "\n");
        }
        let ghost mid = out@;
        let l = &words[i];
        push_str(&mut out, "- ");
        push_str(&mut out, l.lemma.as_str());
        if !l.translation.as_str().is_empty() {
            push_str(&mut out, " (");
            push_str(&mut out, l.translation.as_str());
            push_str(&mut out, ")");
        }
        assert(out@ =~= mid + vocabulary_line(words@[i as int]));
        i = i + 1;
    }
    assert(lines.take(words.len() as int) =~= lines);
    render_vocabulary_block(out.as_str())
}

/// The whole exercise prompt. The languages are named in English; the
/// complexity is anchored to the highest CEFR level among the target
/// topics, not to the learner's self-assessed level; the age defaults to
/// 18; the content vocabulary is always requested, the warm-up cards only
/// for forced vocabulary.
pub open spec fn exercise_prompt_for(
    profile: UserProfile,
    targets: Seq<Topic>,
    sides: Seq<Topic>,
    candidates: Seq<Topic>,
    items: Seq<LearningItem>,
    words: Seq<Lemma>,
    count: nat,
    recent_rate_pct: int,
) -> Seq<char> {
    exercise_prompt_spec(
        count,
        english_name_spec(profile.native_language@),
        english_name_spec(profile.target_language@),
        names_or(targets, "(no specific topics yet)"@),
        difficulty_hint_spec(targets),
        names_or(sides, "(none)"@),
        cefr_hint_spec(profile.self_assessed_cefr),
        age_hint_spec(
            match profile.age {
                Some(a) => a as nat,
                None => 18,
            },
        ),
        adaptive_hint_spec(recent_rate_pct, anchor_spec(effective_level_spec(targets))),
        complexity_hint_spec(effective_level_spec(targets)),
        joined(topic_lines(candidates), "\n"@),
        learning_items_hint_spec(items),
        vocabulary_hint_spec(words),
        response_request_spec(
            english_name_spec(profile.native_language@),
            english_name_spec(profile.target_language@),
            words.len() > 0,
        ),
    )
}

/// The prompt asking for `count` connected translation exercises.
/// `recent_rate_pct` is the recent session success rate in percent, rounded
/// to the nearest integer.
pub fn build_exercise_prompt(
    profile: &UserProfile,
    target_topics: &[Topic],
    side_topics: &[Topic],
    candidate_topics: &[Topic],
    forced_learning_items: &[LearningItem],
    forced_vocabulary: &[Lemma],
    count: u32,
    recent_rate_pct: i32,
) -> (r: String)
    ensures
        r@ == exercise_prompt_for(
            *profile,
            target_topics@,
            side_topics@,
            candidate_topics@,
            forced_learning_items@,
            forced_vocabulary@,
            count as nat,
            recent_rate_pct as int,
        ),
{
    let target_names = names_or_fallback(target_topics, "(no specific topics yet)");
    let side_names = names_or_fallback(side_topics, "(none)");
    let effective = effective_level(target_topics);
    let mut cefr_hint = String::new();
    if let Some(c) = &profile.self_assessed_cefr {
        push_str(&mut cefr_hint, CEFR_HINT);
        push_str(&mut cefr_hint, c.as_str());
    }
    let age: u32 = match profile.age {
        Some(a) => a,
        None => 18,
    };
    let age_hint = render_age_hint(age as u64);
    let anchor: &str = match &effective {
        Some(l) => l.as_str(),
        None => "the student's CEFR level",
    };
    let adaptive_hint = render_adaptive_hint(recent_rate_pct, anchor);
    let complexity_hint = match &effective {
        Some(l) => render_complexity_level_hint(l.as_str(), sentence_shape_guidance(l.as_str())),
        None => copy_str(COMPLEXITY_UNANCHORED),
    };
    let difficulty_hint = render_difficulty_hint(target_topics);
    let topic_list = render_topic_list(candidate_topics);
    let learning_items_hint = render_learning_items_hint(forced_learning_items);
    let vocabulary_hint = render_vocabulary_hint(forced_vocabulary);
    let native = english_name(profile.native_language.as_str());
    let target = english_name(profile.target_language.as_str());
    let response_request = render_response_request(native, target, forced_vocabulary.len() > 0);
    render_exercise_prompt(
        count as u64,
        native,
        target,
        target_names.as_str(),
        difficulty_hint.as_str(),
        side_names.as_str(),
        cefr_hint.as_str(),
        age_hint.as_str(),
        adaptive_hint.as_str(),
        complexity_hint.as_str(),
        topic_list.as_str(),
        learning_items_hint.as_str(),
        vocabulary_hint.as_str(),
        response_request.as_str(),
    )
}

pub const EXTENSION_AGE_0: &'static str = "Student age: ";
pub const EXTENSION_AGE_1: &'static str = ". Avoid childish topics unless appropriate.";

/// The sentence on the learner's age in the curriculum extension prompt.
pub open spec fn extension_age_hint_spec(age: nat) -> Seq<char> {
    EXTENSION_AGE_0@
        + decimal(age)
        + EXTENSION_AGE_1@
}

fn render_extension_age_hint(age: u64) -> (out: String)
    ensures
        out@ == extension_age_hint_spec(age as nat),
{
    let mut out = String::new();
    push_str(&mut out, EXTENSION_AGE_0);
    push_decimal(&mut out, age);
    push_str(&mut out, EXTENSION_AGE_1);
    out
}

pub const EXTENSION_0: &'static str = "You are expanding a language learning curriculum for ";
pub const EXTENSION_1: &'static str = " for a ";
pub const EXTENSION_2: &'static str = " speaker.\nGoal: general fluency.\n";
pub const EXTENSION_3: &'static str = "\nStudent's current CEFR level: ";
pub const EXTENSION_4: &'static str = ".\n\nExisting curriculum topics:\n";
pub const EXTENSION_5: &'static str = "\n\nTopics the student is struggling with (score < 50):\n";
pub const EXTENSION_6: &'static str = "\n\nGenerate exactly ";
pub const EXTENSION_7: &'static str = " new topics that extend or refine the existing curriculum. Consider:\n1. \
    Filling gaps between existing topics (e.g., if 'Preterite: Regular -ar Verbs' exists but 'Preterite: \
    Irregular Verbs' does not, add the missing one).\n2. Reinforcing weak areas if any.\n3. Adding related \
    grammar, vocabulary, usage, or register topics not yet covered.\n4. Progressing toward C2 from the \
    student's current level.\n\nThe new topics must NOT duplicate existing topics by name or concept.\n\nReturn \
    a JSON object:\n{ \"topics\": [ { \"id\": string, \"name\": string, \"description\": string, \"difficulty\": \
    \"beginner\" | \"intermediate\" | \"advanced\", \"level\": \"A1\" | \"A2\" | \"B1\" | \"B2\" | \"C1\" \
    | \"C2\", \"tags\": string[] } ] }\n\nEach topic must include:\n- id: kebab-case string\n- name: \
    short display name (2-6 words)\n- description: 1-2 sentences\n- difficulty: appropriate for the \
    CEFR level\n- level: CEFR level (A1-C2), at or above the student's current level ";
pub const EXTENSION_8: &'static str = " unless it fills a clear gap below it\n- tags: relevant grammar/vocabulary \
    tags\n- targetLang: \"";
pub const EXTENSION_9: &'static str = "\"\n- nativeLang: \"";
pub const EXTENSION_10: &'static str = "\"\n- version: 1\n\nCRITICAL: write each topic's \"name\" and \
    \"description\" in ";
pub const EXTENSION_11: &'static str = " (the student's native language). Only linguistic examples may \
    be in ";
pub const EXTENSION_12: &'static str = ".";

/// The curriculum extension prompt, given its rendered parts.
pub open spec fn curriculum_extension_prompt_spec(target: Seq<char>, native: Seq<char>, age_hint: Seq<char>, cefr: Seq<char>, existing: Seq<char>, weak: Seq<char>, count: nat) -> Seq<char> {
    EXTENSION_0@
        + target
        + EXTENSION_1@
        + native
        + EXTENSION_2@
        + age_hint
        + EXTENSION_3@
        + cefr
        + EXTENSION_4@
        + existing
        + EXTENSION_5@
        + weak
        + EXTENSION_6@
        + decimal(count)
        + EXTENSION_7@
        + cefr
        + EXTENSION_8@
        + target
        + EXTENSION_9@
        + native
        + EXTENSION_10@
        + native
        + EXTENSION_11@
        + target
        + EXTENSION_12@
}

fn render_curriculum_extension(target: &str, native: &str, age_hint: &str, cefr: &str, existing: &str, weak: &str, count: u64) -> (out: String)
    ensures
        out@ == curriculum_extension_prompt_spec(target@, native@, age_hint@, cefr@, existing@, weak@, count as nat),
{
    let mut out = String::new();
    push_str(&mut out, EXTENSION_0);
    push_str(&mut out, target);
    push_str(&mut out, EXTENSION_1);
    push_str(&mut out, native);
    push_str(&mut out, EXTENSION_2);
    push_str(&mut out, age_hint);
    push_str(&mut out, EXTENSION_3);
    push_str(&mut out, cefr);
    push_str(&mut out, EXTENSION_4);
    push_str(&mut out, existing);
    push_str(&mut out, EXTENSION_5);
    push_str(&mut out, weak);
    push_str(&mut out, EXTENSION_6);
    push_decimal(&mut out, count);
    push_str(&mut out, EXTENSION_7);
    push_str(&mut out, cefr);
    push_str(&mut out, EXTENSION_8);
    push_str(&mut out, target);
    push_str(&mut out, EXTENSION_9);
    push_str(&mut out, native);
    push_str(&mut out, EXTENSION_10);
    push_str(&mut out, native);
    push_str(&mut out, EXTENSION_11);
    push_str(&mut out, target);
    push_str(&mut out, EXTENSION_12);
    out
}


/// The sentence on the learner's age in the curriculum extension prompt,
/// for a known or unknown age.
pub open spec fn extension_age_spec(age: Option<u32>) -> Seq<char> {
    match age {
        Some(a) => extension_age_hint_spec(a as nat),
        None => EXTENSION_AGE_UNKNOWN@,
    }
}

pub const EXTENSION_AGE_UNKNOWN: &'static str = "Student age: not specified.";

/// One line of the existing curriculum: "- name [difficulty | level]:
/// description", with "?" for a topic without a level.
pub open spec fn existing_topic_line(t: Topic) -> Seq<char> {
    "- "@ + t.name@ + " ["@ + t.difficulty@ + " | "@ + text_or(t.level, "?"@) + "]: "@ + t.description@
}

/// The lines of the existing curriculum, one per topic.
pub open spec fn existing_topic_lines(topics: Seq<Topic>) -> Seq<Seq<char>> {
    Seq::new(topics.len(), |i: int| existing_topic_line(topics[i]))
}

/// One line of a topic the learner struggles with: "- id: score s", where
/// `s` is the score as printed.
pub open spec fn weak_topic_line(w: (String, String)) -> Seq<char> {
    "- "@ + w.0@ + ": score "@ + w.1@
}

/// The lines of the topics the learner struggles with.
pub open spec fn weak_topic_lines(weak: Seq<(String, String)>) -> Seq<Seq<char>> {
    Seq::new(weak.len(), |i: int| weak_topic_line(weak[i]))
}

/// The block of struggling topics: "(none)" when there is none, else their
/// lines joined with newlines.
pub open spec fn weak_block_spec(weak: Seq<(String, String)>) -> Seq<char> {
    if weak.len() == 0 {
        "(none)"@
    } else {
        joined(weak_topic_lines(weak), "\n"@)
    }
}

fn render_existing_topics(topics: &[Topic]) -> (r: String)
    ensures
        r@ == joined(existing_topic_lines(topics@), "\n"@),
{
    let ghost lines = existing_topic_lines(topics@);
    let mut out = String::new();
    let mut i: usize = 0;
    while i < topics.len()
        invariant
            i <= topics.len(),
            lines == existing_topic_lines(topics@),
            out@ == joined(lines.take(i as int), "\n"@),
        decreases topics.len() - i,
    {
        proof {
            lemma_joined_extend(lines, "\n"@, i as int);
        }
        if i > 0 {
            push_str(&mut out, "\n");
        }
        let ghost mid = out@;
        let t = &topics[i];
        push_str(&mut out, "- ");
        push_str(&mut out, t.name.as_str());
        push_str(&mut out, " [");
        push_str(&mut out, t.difficulty.as_str());
        push_str(&mut out, " | ");
        match &t.level {
            Some(l) => push_str(&mut out, l.as_str()),
            None => push_str(&mut out, "?"),
        }
        push_str(&mut out, "]: ");
        push_str(&mut out, t.description.as_str());
        assert(out@ =~= mid + existing_topic_line(topics@[i as int]));
        i = i + 1;
    }
    assert(lines.take(topics.len() as int) =~= lines);
    out
}

fn render_weak_block(weak: &[(String, String)]) -> (r: String)
    ensures
        r@ == weak_block_spec(weak@),
{
    if weak.len() == 0 {
        return copy_str("(none)");
    }
    let ghost lines = weak_topic_lines(weak@);
    let mut out = String::new();
    let mut i: usize = 0;
    while i < weak.len()
        invariant
            i <= weak.len(),
            lines == weak_topic_lines(weak@),
            out@ == joined(lines.take(i as int), "\n"@),
        decreases weak.len() - i,
    {
        proof {
            lemma_joined_extend(lines, "\n"@, i as int);
        }
        if i > 0 {
            push_str(&mut out, "\n");
        }
        let ghost mid = out@;
        push_str(&mut out, "- ");
        push_str(&mut out, weak[i].0.as_str());
        push_str(&mut out, ": score ");
        push_str(&mut out, weak[i].1.as_str());
        assert(out@ =~= mid + weak_topic_line(weak@[i as int]));
        i = i + 1;
    }
    assert(lines.take(weak.len() as int) =~= lines);
    out
}

/// The prompt asking for `count` new topics that extend the curriculum
/// `existing_topics` and reinforce the topics the learner struggles with;
/// each entry of `weak_scores` is such a topic's id and its score as
/// printed.
pub fn build_curriculum_extension_prompt(
    profile: &UserProfile,
    existing_topics: &[Topic],
    weak_scores: &[(String, String)],
    count: usize,
) -> (r: String)
    ensures
        r@ == curriculum_extension_prompt_spec(
            profile.target_language@,
            profile.native_language@,
            extension_age_spec(profile.age),
            text_or(profile.self_assessed_cefr, "beginner"@),
            joined(existing_topic_lines(existing_topics@), "\n"@),
            weak_block_spec(weak_scores@),
            count as nat,
        ),
{
    let existing = render_existing_topics(existing_topics);
    let weak = render_weak_block(weak_scores);
    let cefr: &str = match &profile.self_assessed_cefr {
        Some(c) => c.as_str(),
        None => "beginner",
    };
    let age_hint = match profile.age {
        Some(age) => render_extension_age_hint(age as u64),
        None => copy_str(EXTENSION_AGE_UNKNOWN),
    };
    render_curriculum_extension(
        profile.target_language.as_str(),
        profile.native_language.as_str(),
        age_hint.as_str(),
        cefr,
        existing.as_str(),
        weak.as_str(),
        count as u64,
    )
}

} // verus!

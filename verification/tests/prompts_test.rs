use open_course::curriculum::Topic;
use open_course::learning_items::LearningItem;
use open_course::llm::prompts::{
    build_batch_analysis_prompt, build_curriculum_domain_prompt, build_curriculum_extension_prompt, build_curriculum_gap_prompt,
    build_curriculum_level_prompt, build_exercise_prompt, build_new_topic_metadata_prompt,
    build_topic_metadata_prompt, build_topic_review_prompt, sentence_shape_guidance,
};
use open_course::profile::UserProfile;
use open_course::session::models::{Exercise, NewTopicRef};
use open_course::vocabulary::Lemma;

fn profile() -> UserProfile {
    UserProfile {
        native_language: "Russian".to_string(),
        target_language: "Spanish".to_string(),
        age: Some(30),
        self_assessed_cefr: Some("A2".to_string()),
    }
}

fn topic(id: &str, level: Option<&str>, difficulty: &str) -> Topic {
    Topic {
        id: id.to_string(),
        name: format!("Topic {id}"),
        description: "desc".to_string(),
        difficulty: difficulty.to_string(),
        level: level.map(|l| l.to_string()),
        target_lang: "es".to_string(),
        native_lang: "ru".to_string(),
        version: 1,
        ..Default::default()
    }
}

#[test]
fn exercise_prompt_includes_forced_vocabulary_block() {
    let lemmas = vec![
        Lemma { lemma: "comer".to_string(), translation: "есть".to_string(), ..Default::default() },
        Lemma { lemma: "pequeño".to_string(), ..Default::default() },
    ];
    let prompt = build_exercise_prompt(&profile(), &[], &[], &[], &[], &lemmas, 3, 80);
    assert!(prompt.contains("The following words need extra practice"));
    assert!(prompt.contains("- comer (есть)"));
    assert!(prompt.contains("- pequeño\n"));
    assert!(prompt.contains("if it fits naturally"));
    assert!(prompt.contains("skip a word rather than distort the sentence"));
}

#[test]
fn exercise_prompt_omits_forced_vocabulary_block_when_empty() {
    let prompt = build_exercise_prompt(&profile(), &[], &[], &[], &[], &[], 3, 80);
    assert!(!prompt.contains("need extra practice"));
}

#[test]
fn batch_analysis_prompt_describes_used_vocabulary() {
    let exercise = Exercise {
        id: "ex1".to_string(),
        target_sentence: "Я ем".to_string(),
        expected_translation: "Como".to_string(),
        acceptable_translations: vec![],
        target_topic_ids: vec![],
        side_topic_ids: vec![],
        expected_patterns: vec![],
        hint: None,
        target_unit_ids: None,
    };
    let pairs = vec![(exercise, "Como".to_string())];
    let prompt = build_batch_analysis_prompt(&profile(), &pairs, &[]);
    assert!(prompt.contains("\"usedVocabulary\""));
    assert!(prompt.contains("side \"target\""));
    assert!(prompt.contains("side \"student\""));
    assert!(prompt.contains("spellingOk"));
    assert!(prompt.contains("Attr=Val"));
    assert!(prompt.contains("NOUN, VERB, ADJ, ADV, PROPN"));
    assert!(prompt.contains("\"cefrLevel\""));
    assert!(prompt.contains("Estimate approximate CEFR level (A1–C2) for the lemma for a typical adult general learner. Prefer high-frequency / early textbook order. Ignore rare or specialized senses."));
    assert!(prompt.contains("full standard UD feature set"));
    assert!(prompt.contains("VerbForm=Fin"));
    assert!(prompt.contains("errors fully explained by a single word form"));
}

#[test]
fn batch_analysis_prompt_numbers_exercises_and_lists_topics() {
    let exercise = |s: &str, e: &str| Exercise {
        id: "x".to_string(),
        target_sentence: s.to_string(),
        expected_translation: e.to_string(),
        acceptable_translations: vec![],
        target_topic_ids: vec![],
        side_topic_ids: vec![],
        expected_patterns: vec![],
        hint: None,
        target_unit_ids: None,
    };
    let pairs = vec![
        (exercise("Я ем", "Como"), "Como".to_string()),
        (exercise("Он спит", "Él duerme"), "El duerme".to_string()),
    ];
    let topics = vec![topic("t1", None, "beginner"), topic("t2", None, "beginner")];
    let prompt = build_batch_analysis_prompt(&profile(), &pairs, &topics);
    assert!(prompt.starts_with("You are a strict grammar tutor. The student is a Russian speaker learning Spanish. The student translated 2 sentence(s)."));
    assert!(prompt.contains("Exercise 1:\nOriginal (Russian): Я ем\nExpected translation: Como\nStudent translation: Como\n\nExercise 2:\nOriginal (Russian): Он спит\nExpected translation: Él duerme\nStudent translation: El duerme\n\nUse ONLY"));
    assert!(prompt.contains("- topicId: \"t1\", name: \"Topic t1\"\n- topicId: \"t2\", name: \"Topic t2\"\n"));
    assert!(prompt.contains("with exactly 2 items."));
}

#[test]
fn exercise_prompt_anchors_complexity_to_highest_target_level() {
    let targets = vec![topic("t1", Some("a2"), "beginner"), topic("t2", None, "intermediate")];
    let side = vec![topic("s1", None, "beginner")];
    let candidates = vec![topic("t1", None, "beginner")];
    let prompt = build_exercise_prompt(&profile(), &targets, &side, &candidates, &[], &[], 5, 67);
    assert!(prompt.starts_with("You are a language tutor. Generate 5 connected translation exercises from Russian to Spanish.\n\nTarget topics: Topic t1, Topic t2\n"));
    assert!(prompt.contains("Target difficulties: Topic t1 (difficulty: beginner, CEFR: A2), Topic t2 (difficulty: intermediate, CEFR: B1)\n"));
    assert!(prompt.contains("Side topics: Topic s1\n"));
    assert!(prompt.contains("Proficiency level (self-assessed): A2\n"));
    assert!(prompt.contains("Student age: 30. Use contexts and examples that fit the life experience of a typical 30-year-old.\n"));
    assert!(prompt.contains("Recent session success rate: 67%."));
    assert!(prompt.contains("stay within the sentence-shape limits for B1."));
    assert!(prompt.contains("Sentence complexity MUST match CEFR level B1."));
    assert!(prompt.contains("Sentence shape for B1: 8-15 words per sentence, up to two clauses, common connectors."));
    assert!(prompt.contains("- topicId: \"t1\", name: \"Topic t1\"\n\nThe 5 sentences"));
}

#[test]
fn exercise_prompt_without_topics_uses_defaults() {
    let p = UserProfile {
        native_language: "Russian".to_string(),
        target_language: "Spanish".to_string(),
        age: None,
        self_assessed_cefr: None,
    };
    let prompt = build_exercise_prompt(&p, &[], &[], &[], &[], &[], 3, -5);
    assert!(prompt.contains("Target topics: (no specific topics yet)\nTarget difficulties: general\nSide topics: (none)\nNative language: Russian\n\nStudent age: 18."));
    assert!(prompt.contains("Recent session success rate: -5%."));
    assert!(prompt.contains("stay within the sentence-shape limits for the student's CEFR level."));
    assert!(prompt.contains("Adjust the overall complexity to the student's CEFR level if provided."));
}

#[test]
fn exercise_prompt_lists_forced_learning_items() {
    let items = vec![LearningItem {
        id: "es-caro-vs-rico".to_string(),
        name: "caro/rico".to_string(),
        description: "expensive vs tasty".to_string(),
        ..Default::default()
    }];
    let prompt = build_exercise_prompt(&profile(), &[], &[], &[], &items, &[], 3, 80);
    assert!(prompt.contains("The following learning items need extra practice."));
    assert!(prompt.contains(":\n- caro/rico (expensive vs tasty)\n"));
}

#[test]
fn sentence_shapes_by_level() {
    assert_eq!(sentence_shape_guidance("a1"), "3-7 words per sentence, a single clause, present tense only, very common vocabulary.");
    assert!(sentence_shape_guidance("B2").starts_with("up to about 20 words"));
    assert_eq!(sentence_shape_guidance("C1"), "no length limit, natural sophisticated prose.");
}

#[test]
fn topic_review_prompt_names_the_topic_and_languages() {
    let prompt = build_topic_review_prompt(&profile(), &topic("greetings", None, "beginner"));
    assert!(prompt.starts_with("You are a language tutor. Prepare a focused review of the topic \"Topic greetings\" in Spanish for a Russian speaker.\n\nTopic description: desc\n"));
    assert!(prompt.contains("superpowers"));
    assert!(prompt.ends_with("Do not wrap output in code fences."));
}

#[test]
fn topic_metadata_prompt_defaults_the_level() {
    let mut p = profile();
    p.self_assessed_cefr = None;
    let prompt = build_topic_metadata_prompt("ser-vs-estar", &p);
    assert!(prompt.starts_with("Generate a language learning topic for the topic id \"ser-vs-estar\" in Spanish for a Russian speaker.\nThe student's current CEFR level is beginner."));
    assert!(prompt.contains("- id: \"ser-vs-estar\" (exactly this id)"));
}

#[test]
fn curriculum_level_prompt_lists_every_domain() {
    let prompt = build_curriculum_level_prompt(&profile(), "B1", Some("A2"), 12);
    assert!(prompt.contains("The student is 30 years old."));
    assert!(prompt.contains("produce around 12 focused Spanish topics a learner must master to progress from CEFR A2 to CEFR B1."));
    assert!(prompt.contains("- difficulty: \"intermediate\"\n"));
    assert!(prompt.contains("1. phonetics-orthography — Stress, diacritics"));
    assert!(prompt.contains("\n8. text-types — Narrative, descriptive"));
    let prompt = build_curriculum_level_prompt(&UserProfile { age: None, ..profile() }, "A1", None, 4);
    assert!(prompt.contains("from CEFR beginner to CEFR A1"));
    assert!(prompt.contains("The student's age is not specified"));
}

#[test]
fn curriculum_gap_and_domain_prompts() {
    let prompt = build_curriculum_gap_prompt(&profile(), "C1", &["syntax", "text-types"]);
    assert!(prompt.contains("The Spanish curriculum for CEFR level C1 is missing topics in the following domains: syntax, text-types."));
    assert!(prompt.contains("\"difficulty\": \"advanced\""));
    let prompt = build_curriculum_domain_prompt(&profile(), "A2", "syntax", "Word order", 4);
    assert!(prompt.contains("Domain: syntax — Word order"));
    assert!(prompt.contains("Generate exactly 4 focused, narrow Spanish topics"));
    assert!(prompt.ends_with("belongs to the syntax domain."));
}

#[test]
fn new_topic_prompt_levels_fall_back() {
    let new_topic = NewTopicRef { name: "Ser vs estar".to_string(), description: "d".to_string(), level: None };
    let prompt = build_new_topic_metadata_prompt(&profile(), &new_topic);
    assert!(prompt.contains("The learner's current CEFR level is A2."));
    assert!(prompt.contains("- Proposed CEFR level: A1\n"));
    let new_topic = NewTopicRef { level: Some("B2".to_string()), ..new_topic };
    let prompt = build_new_topic_metadata_prompt(&profile(), &new_topic);
    assert!(prompt.contains("The learner's current CEFR level is B2."));
    assert!(prompt.contains("- Proposed CEFR level: B2\n"));
}

#[test]
fn curriculum_extension_prompt_lists_topics_and_weak_scores() {
    let topics = vec![topic("greetings", Some("A1"), "beginner"), topic("ser", None, "beginner")];
    let weak = vec![("ser".to_string(), "42".to_string())];
    let prompt = build_curriculum_extension_prompt(&profile(), &topics, &weak, 5);
    assert!(prompt.starts_with("You are expanding a language learning curriculum for Spanish for a Russian speaker.\nGoal: general fluency.\nStudent age: 30. Avoid childish topics unless appropriate.\nStudent's current CEFR level: A2.\n\n"));
    assert!(prompt.contains("Existing curriculum topics:\n- Topic greetings [beginner | A1]: desc\n- Topic ser [beginner | ?]: desc\n\n"));
    assert!(prompt.contains("(score < 50):\n- ser: score 42\n\nGenerate exactly 5 new topics"));
    assert!(prompt.contains("at or above the student's current level A2 unless"));
    assert!(prompt.ends_with("CRITICAL: write each topic's \"name\" and \"description\" in Russian (the student's native language). Only linguistic examples may be in Spanish."));
    let mut p = profile();
    p.age = None;
    p.self_assessed_cefr = None;
    let prompt = build_curriculum_extension_prompt(&p, &[], &[], 3);
    assert!(prompt.contains("\nStudent age: not specified.\nStudent's current CEFR level: beginner.\n\nExisting curriculum topics:\n\n\nTopics"));
    assert!(prompt.contains("(score < 50):\n(none)\n\nGenerate exactly 3 new topics"));
}

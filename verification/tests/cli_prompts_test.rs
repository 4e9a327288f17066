use open_course::curriculum::{Difficulty, Topic};
use open_course::learning_items::LearningItem;
use open_course::llm::prompts::{
    build_batch_analysis_prompt, build_curriculum_level_prompt, build_exercise_prompt,
    build_topic_review_prompt, english_name,
};
use open_course::profile::UserProfile;
use open_course::session::models::Exercise;
use open_course::vocabulary::Lemma;

fn profile() -> UserProfile {
    UserProfile {
        native_language: "ru".to_string(),
        target_language: "en".to_string(),
        age: Some(30),
        self_assessed_cefr: Some("B1".to_string()),
    }
}

fn topic(id: &str) -> Topic {
    Topic {
        id: id.to_string(),
        name: format!("Topic {id}"),
        description: "desc".to_string(),
        difficulty: Difficulty::Beginner.as_str().to_string(),
        level: Some("A2".to_string()),
        order: None,
        tags: vec![],
        target_lang: "en".to_string(),
        native_lang: "ru".to_string(),
        version: 1,
        ..Default::default()
    }
}

// The recent success rate 0.75, in whole percent.
const RATE_PCT: i32 = 75;

#[test]
fn exercise_prompt_includes_profile() {
    let p = profile();
    let all = vec![topic("t1"), topic("t2")];
    let target = vec![topic("t1")];
    let side = vec![topic("t2")];
    let prompt = build_exercise_prompt(&p, &target, &side, &all, &[], &[], 3, RATE_PCT);

    assert!(prompt.contains("Russian to English"));
    assert!(prompt.contains("Target topics: Topic t1"));
    assert!(prompt.contains("B1"));
    assert!(prompt.contains("Student age: 30"));
    assert!(prompt.contains(
        "contexts and examples that fit the life experience of a typical 30-year-old"
    ));
    assert!(prompt.contains("topicId: \"t1\""));
    assert!(prompt.contains("JSON object"));
    assert!(prompt.contains("exercises"));
    assert!(prompt.contains("Topic t1 (difficulty: beginner, CEFR: A2)"));
    assert!(prompt.contains("complexity MUST match CEFR level A2"));
    assert!(prompt.contains("6-12 words per sentence"));
}

#[test]
fn exercise_prompt_includes_forced_learning_items() {
    let p = profile();
    let all = vec![topic("t1")];
    let target = vec![topic("t1")];
    let items = vec![LearningItem {
        id: "en-grammar".to_string(),
        name: "a/an".to_string(),
        description: "articles".to_string(),
        level: None,
        target_lang: "en".to_string(),
        native_lang: "ru".to_string(),
        score_bits: 0.0f64.to_bits(),
        last_practiced: None,
        practice_count: 0,
        ..Default::default()
    }];
    let prompt = build_exercise_prompt(&p, &target, &[], &all, &items, &[], 3, RATE_PCT);

    assert!(prompt.contains("learning items"));
    assert!(prompt.contains("a/an"));
    assert!(prompt.contains("articles"));
}

#[test]
fn exercise_prompt_includes_forced_vocabulary() {
    let p = profile();
    let all = vec![topic("t1")];
    let target = vec![topic("t1")];
    let lemmas = vec![
        Lemma {
            id: "en-colleague".to_string(),
            lemma: "colleague".to_string(),
            pos: "NOUN".to_string(),
            target_lang: "en".to_string(),
            native_lang: "ru".to_string(),
            translation: "коллега".to_string(),
            ..Default::default()
        },
        Lemma {
            id: "en-resilient".to_string(),
            lemma: "resilient".to_string(),
            pos: "ADJ".to_string(),
            target_lang: "en".to_string(),
            native_lang: "ru".to_string(),
            ..Default::default()
        },
    ];
    let prompt = build_exercise_prompt(&p, &target, &[], &all, &[], &lemmas, 3, RATE_PCT);

    assert!(prompt.contains("words need extra practice"));
    assert!(prompt.contains("- colleague (коллега)"));
    assert!(prompt.contains("- resilient"));
    assert!(prompt.contains("\"warmup\""));
    assert!(prompt.contains("one entry per word listed above"));
}

#[test]
fn exercise_prompt_always_requests_vocabulary_extraction() {
    let p = profile();
    let all = vec![topic("t1")];
    let target = vec![topic("t1")];
    let prompt = build_exercise_prompt(&p, &target, &[], &all, &[], &[], 3, RATE_PCT);

    assert!(prompt.contains("\"vocabulary\""));
    assert!(prompt.contains("CONTENT word"));
    assert!(!prompt.contains("\"warmup\""));
}

#[test]
fn exercise_prompt_anchors_vocabulary_extraction_to_expected_translation() {
    let p = profile();
    let all = vec![topic("t1")];
    let target = vec![topic("t1")];
    let prompt = build_exercise_prompt(&p, &target, &[], &all, &[], &[], 3, RATE_PCT);

    assert!(prompt.contains("appears in the expectedTranslation fields"));
    assert!(prompt.contains("never extract words from targetSentence"));
}

#[test]
fn analysis_prompt_includes_answers() {
    let p = profile();
    let exercise = Exercise {
        id: "e1".to_string(),
        target_sentence: "Hello".to_string(),
        expected_translation: "Привет".to_string(),
        acceptable_translations: vec![],
        target_topic_ids: vec!["t1".to_string()],
        side_topic_ids: vec![],
        expected_patterns: vec![],
        hint: None,
        target_unit_ids: None,
    };
    let pairs = vec![(exercise, "Hi".to_string())];
    let topics = vec![topic("t1")];
    let prompt = build_batch_analysis_prompt(&p, &pairs, &topics);

    assert!(prompt.contains("Student translation: Hi"));
    assert!(prompt.contains("topicId: \"t1\""));
    assert!(prompt.contains("explanations and comments must be in Russian"));
    assert!(prompt.contains("\"spelling\""));
    assert!(prompt.contains("Do NOT include `newTopics` for spelling errors"));
    assert!(prompt.contains("generalizable, reusable grammar or usage pattern"));
    assert!(prompt.contains("vocabulary review item instead of a topic"));
}

#[test]
fn topic_review_prompt_includes_topic_name() {
    let p = profile();
    let t = topic("greetings");
    let prompt = build_topic_review_prompt(&p, &t);

    assert!(prompt.contains("greetings"));
    assert!(prompt.contains("superpowers"));
}

#[test]
fn curriculum_level_prompt_includes_domains_and_level() {
    let p = profile();
    let prompt = build_curriculum_level_prompt(&p, "B1", Some("A2"), 12);

    assert!(prompt.contains("A2"));
    assert!(prompt.contains("B1"));
    assert!(prompt.contains("targetLanguage"));
    assert!(prompt.contains("nativeLanguage"));
    assert!(prompt.contains("lexicon-vocabulary"));
    assert!(prompt.contains("domain:"));
}

#[test]
fn language_codes_are_named_in_english() {
    assert_eq!(english_name("ru"), "Russian");
    assert_eq!(english_name("es"), "Spanish");
    assert_eq!(english_name("Spanish"), "Spanish");
    assert_eq!(english_name("xx"), "xx");
}

use open_course::curriculum::{
    cefr_to_difficulty, cefr_to_numeric, curriculum_domain_descriptions, dedupe,
    difficulty_to_cefr, is_abstract_topic_name, should_remove_topic, target_level_topic_count,
    target_topic_count, topic_domain, topic_id_from_name, Difficulty, Topic,
};

fn make_topic(id: &str, name: &str) -> Topic {
    Topic {
        id: id.to_string(),
        name: name.to_string(),
        description: String::new(),
        difficulty: "beginner".to_string(),
        level: None,
        order: None,
        tags: vec![],
        target_lang: "es".to_string(),
        native_lang: "ru".to_string(),
        version: 1,
        ..Default::default()
    }
}

#[test]
fn dedupe_removes_duplicate_topic_names() {
    let topics = vec![
        make_topic("t1", "Conjugation patterns"),
        make_topic("t2", "Conjugation Patterns"),
        make_topic("t3", "Word stress rules"),
    ];
    let (kept, removed) = dedupe(topics);
    assert_eq!(kept.len(), 2);
    assert_eq!(removed.len(), 1);
    assert_eq!(kept[0].id, "t1");
    assert_eq!(kept[1].id, "t3");
    assert_eq!(removed[0].id, "t2");
}

#[test]
fn dedupe_keeps_distinct_topics() {
    let topics = vec![
        make_topic("t1", "Prepositions with events"),
        make_topic("t2", "Countable vs uncountable nouns"),
    ];
    let (kept, removed) = dedupe(topics);
    assert_eq!(kept.len(), 2);
    assert!(removed.is_empty());
}

#[test]
fn dedupe_twice_removes_nothing_more() {
    let topics = vec![
        make_topic("t1", "Conjugation patterns"),
        make_topic("t2", "Conjugation Patterns"),
        make_topic("t3", "Word stress rules"),
    ];
    let (kept, _) = dedupe(topics);
    let (again, removed) = dedupe(kept);
    assert_eq!(again.len(), 2);
    assert!(removed.is_empty());
}

#[test]
fn cefr_levels_map_to_numbers_case_insensitively() {
    assert_eq!(cefr_to_numeric("A1"), Some(1));
    assert_eq!(cefr_to_numeric("b2"), Some(4));
    assert_eq!(cefr_to_numeric("C2"), Some(6));
    assert_eq!(cefr_to_numeric("D1"), None);
    assert_eq!(cefr_to_numeric(""), None);
}

#[test]
fn cefr_levels_map_to_difficulties() {
    assert_eq!(cefr_to_difficulty("a2"), "beginner");
    assert_eq!(cefr_to_difficulty("B1"), "intermediate");
    assert_eq!(cefr_to_difficulty("C2"), "advanced");
    assert_eq!(cefr_to_difficulty("unknown"), "beginner");
    assert_eq!(difficulty_to_cefr("intermediate"), Some("B1".to_string()));
    assert_eq!(difficulty_to_cefr("advanced"), Some("C1".to_string()));
    assert_eq!(difficulty_to_cefr("Beginner"), None);
}

#[test]
fn topic_counts_grow_with_level() {
    assert_eq!(target_topic_count("a1", "syntax"), 4);
    assert_eq!(target_topic_count("B2", "syntax"), 5);
    assert_eq!(target_topic_count("C1", "syntax"), 6);
    assert_eq!(target_topic_count("X", "syntax"), 4);
    assert_eq!(target_level_topic_count("A2"), 12);
    assert_eq!(target_level_topic_count("b1"), 16);
    assert_eq!(target_level_topic_count("C2"), 20);
    assert_eq!(target_level_topic_count(""), 12);
}

#[test]
fn topic_sort_key_prefers_order_then_level() {
    let mut t = make_topic("t", "Topic");
    assert_eq!(t.sort_key(), 0);
    t.level = Some("b1".to_string());
    assert_eq!(t.cefr_numeric(), 3);
    assert_eq!(t.sort_key(), 3);
    t.order = Some(42);
    assert_eq!(t.sort_key(), 42);
    t.difficulty = "advanced".to_string();
    assert_eq!(t.difficulty_enum(), Difficulty::Advanced);
    assert_eq!(Difficulty::Intermediate.as_str(), "intermediate");
}

#[test]
fn domains_are_found_from_tags() {
    let mut t = make_topic("t", "Topic");
    assert_eq!(topic_domain(&t), None);
    t.tags = vec!["grammar".to_string(), "Domain:Syntax".to_string()];
    assert_eq!(topic_domain(&t), Some("syntax"));
    t.tags = vec!["VERB-SYSTEM".to_string()];
    assert_eq!(topic_domain(&t), Some("verb-system"));
    let domains = curriculum_domain_descriptions();
    assert_eq!(domains.len(), 8);
    assert_eq!(domains[7].0, "text-types");
}

#[test]
fn topic_ids_are_slugs_with_a_fallback() {
    assert_eq!(topic_id_from_name("Ser vs estar"), "ser-vs-estar");
    assert_eq!(topic_id_from_name("!!!"), "topic");
}

#[test]
fn abstract_topics_are_removed() {
    assert!(is_abstract_topic_name("Common Spelling Errors"));
    assert!(is_abstract_topic_name("Basic vocabulary for travel"));
    assert!(!is_abstract_topic_name("Adjective gender agreement"));
    assert!(should_remove_topic("Spelling of b and v"));
    assert!(should_remove_topic("Grammar Basics"));
    assert!(!should_remove_topic("Ser vs estar with adjectives"));
}

#[test]
fn topics_below_the_learner_level_start_familiar() {
    assert_eq!(open_course::curriculum::initial_topic_score(1, 3), 100);
    assert_eq!(open_course::curriculum::initial_topic_score(3, 3), 0);
    assert_eq!(open_course::curriculum::initial_topic_score(4, 3), 0);
    assert_eq!(open_course::curriculum::initial_topic_score(0, 3), 0);
}

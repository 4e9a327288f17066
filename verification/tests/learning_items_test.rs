use open_course::curriculum::Topic;
use open_course::learning_items::{
    dedupe, is_duplicate_name, is_learning_item_name, score_greater, significant_words, slugify,
    text_contains_any_word, LearningItem,
};

#[test]
fn slugify_basic() {
    assert_eq!(slugify("pequeño/pequeña"), "pequeno-pequena");
    assert_eq!(slugify("Adverb: muy with adjectives"), "adverb-muy-with-adjectives");
}

#[test]
fn detects_learning_item_names() {
    assert!(is_learning_item_name("pequeño/pequeña"));
    assert!(is_learning_item_name("Adjective agreement: pequeño/pequeña"));
    assert!(is_learning_item_name("Color adjectives: Rojo and Roja"));
    assert!(is_learning_item_name("Adverb muy with adjectives"));
    assert!(is_learning_item_name("Adjective: Caro vs Rico"));
    assert!(is_learning_item_name("marrón"));
}

#[test]
fn rejects_broad_topics() {
    assert!(!is_learning_item_name("Adjective placement"));
    assert!(!is_learning_item_name("Common Spelling Errors"));
    assert!(!is_learning_item_name("Present tense verbs"));
}

#[test]
fn significant_words_strip_labels_and_stop_words() {
    assert_eq!(
        significant_words("Adverb: вслух → out loud/aloud"),
        vec!["вслух", "out", "loud", "aloud"]
    );
    assert_eq!(significant_words("Verb: remind vs notice"), vec!["remind", "notice"]);
    assert!(significant_words("Verb vs Noun").is_empty());
    assert_eq!(significant_words("pequeño/pequeña"), vec!["pequeno", "pequena"]);
}

#[test]
fn duplicate_name_detection() {
    let existing = vec!["Verb: remind vs notice".to_string()];
    assert!(is_duplicate_name(&existing, "Verbs: remind vs notice").is_some());

    let existing = vec!["in time vs on time".to_string()];
    assert!(is_duplicate_name(&existing, "On time vs In time").is_some());

    let existing = vec!["Prepositions with events".to_string()];
    assert!(is_duplicate_name(&existing, "Countable vs uncountable nouns").is_none());

    let existing = vec!["Verb vs Noun".to_string()];
    assert!(is_duplicate_name(&existing, "Adverb or Adjective").is_none());
}

#[test]
fn duplicate_index_points_at_the_first_match() {
    let existing = vec![
        "Prepositions with events".to_string(),
        "Verb: remind vs notice".to_string(),
        "remind vs notice".to_string(),
    ];
    assert_eq!(is_duplicate_name(&existing, "Verbs: remind vs notice"), Some(1));
}

#[test]
fn slugs_have_no_dashes_at_the_ends_or_doubled() {
    assert_eq!(slugify("  --Hola, ¿qué tal?--  "), "hola-que-tal");
    assert_eq!(slugify(""), "");
}

#[test]
fn text_contains_any_word_matches_whole_words() {
    let words = vec!["pan".to_string()];
    assert!(text_contains_any_word("Como pan cada día.", &words));
    assert!(!text_contains_any_word("Es un panadero.", &words));
    assert!(!text_contains_any_word("Como pan.", &[]));
}

#[test]
fn learning_item_ids_are_slugs_of_the_language_and_name() {
    assert_eq!(LearningItem::slug_id("Caro vs Rico", "es"), "es-caro-vs-rico");
    assert_eq!(LearningItem::slug_id("", ""), "");
    let topic = Topic {
        id: "t".to_string(),
        name: "Pequeño / pequeña".to_string(),
        description: "size".to_string(),
        level: Some("A1".to_string()),
        target_lang: "es".to_string(),
        native_lang: "ru".to_string(),
        ..Default::default()
    };
    let item = LearningItem::from_topic(&topic);
    assert_eq!(item.id, "es-pequeno-pequena");
    assert_eq!(item.name, "Pequeño / pequeña");
    assert_eq!(item.level.as_deref(), Some("A1"));
    assert_eq!(item.practice_count, 0);
    assert_eq!(f64::from_bits(item.score_bits), 0.0);
}

fn make_item(
    id: &str,
    name: &str,
    score: f64,
    last_practiced: Option<&str>,
    practice_count: i32,
) -> LearningItem {
    LearningItem {
        id: id.to_string(),
        name: name.to_string(),
        description: String::new(),
        level: None,
        target_lang: "es".to_string(),
        native_lang: "ru".to_string(),
        score_bits: score.to_bits(),
        last_practiced: last_practiced.map(|s| s.to_string()),
        practice_count,
        ..Default::default()
    }
}

#[test]
fn dedupe_merges_duplicates_keeping_most_practiced() {
    let items = vec![
        make_item("a", "Verb: remind vs notice", 10.0, None, 1),
        make_item("b", "Verbs: remind vs notice", 40.0, None, 5),
        make_item("c", "Countable vs uncountable nouns", 20.0, None, 2),
    ];
    let (kept, removed) = dedupe(items);
    assert_eq!(kept.len(), 2);
    assert_eq!(removed.len(), 1);
    let kept_ids: Vec<&str> = kept.iter().map(|i| i.id.as_str()).collect();
    assert!(kept_ids.contains(&"b"));
    assert!(kept_ids.contains(&"c"));
    assert_eq!(removed[0].id, "a");
}

#[test]
fn dedupe_keeps_distinct_items() {
    let items = vec![
        make_item("a", "pequeño/pequeña", 10.0, None, 1),
        make_item("b", "caro vs rico", 40.0, None, 5),
    ];
    let (kept, removed) = dedupe(items);
    assert_eq!(kept.len(), 2);
    assert!(removed.is_empty());
}

#[test]
fn dedupe_tie_breaks_by_score_then_insertion_order() {
    let items = vec![
        make_item("first", "remind vs notice", 30.0, None, 2),
        make_item("second", "Remind vs notice", 50.0, None, 2),
        make_item("third", "remind VS notice", 50.0, None, 2),
    ];
    let (kept, removed) = dedupe(items);
    assert_eq!(kept.len(), 1);
    assert_eq!(kept[0].id, "second");
    let removed_ids: Vec<&str> = removed.iter().map(|i| i.id.as_str()).collect();
    assert_eq!(removed_ids, ["first", "third"]);
}

#[test]
fn dedupe_keeps_every_item_once() {
    let items = vec![
        make_item("a", "remind vs notice", 1.0, None, 1),
        make_item("b", "Verbs: remind vs notice", 2.0, None, 3),
        make_item("c", "caro vs rico", 3.0, None, 0),
        make_item("d", "Caro vs rico", 3.0, None, 0),
    ];
    let (kept, removed) = dedupe(items);
    let mut ids: Vec<String> = kept.iter().chain(removed.iter()).map(|i| i.id.clone()).collect();
    ids.sort();
    assert_eq!(ids, ["a", "b", "c", "d"]);
    assert_eq!(kept.iter().map(|i| i.id.as_str()).collect::<Vec<_>>(), ["b", "c"]);
}

#[test]
fn score_comparison_follows_double_ordering() {
    let cases: [(f64, f64); 9] = [
        (1.0, 0.5),
        (0.5, 1.0),
        (-1.0, -2.0),
        (-2.0, -1.0),
        (0.0, -0.0),
        (-0.0, 0.0),
        (1e300, -1e300),
        (f64::INFINITY, 1e300),
        (-0.5, 0.25),
    ];
    for (a, b) in cases {
        assert_eq!(score_greater(a.to_bits(), b.to_bits()), a > b, "{a} > {b}");
    }
    assert!(!score_greater(f64::NAN.to_bits(), 1.0f64.to_bits()));
    assert!(!score_greater(1.0f64.to_bits(), f64::NAN.to_bits()));
}

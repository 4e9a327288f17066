use open_course::vocabulary::normalize_feats_key;
use open_course::curriculum::{cefr_to_difficulty, difficulty_to_cefr, is_abstract_topic_name, should_remove_topic};
use open_course::learning_items::{is_duplicate_name, is_learning_item_name};
use open_course::llm::clean::clean_json_response;

#[test]
fn cleaning_twice_is_cleaning_once() {
    for raw in [
        "  Here you go:\r\n```json\n{\"a\": \"x\ny\"}\n``` done  ",
        "\t[1, [2, 3]] trailing",
        "  no json here  \n",
        "{\"unclosed\": [1, 2",
        "",
    ] {
        let once = clean_json_response(raw);
        assert_eq!(clean_json_response(&once), once);
        assert_eq!(once.trim(), once);
        assert!(!once.contains('\n') && !once.contains('\r'));
    }
    assert_eq!(clean_json_response("  Here you go:\r\n{\"a\": \"x\ny\"}\n  "), "{\"a\": \"x y\"}");
}

#[test]
fn difficulties_round_trip_through_cefr() {
    for d in ["beginner", "intermediate", "advanced"] {
        assert_eq!(cefr_to_difficulty(&difficulty_to_cefr(d).unwrap()), d);
    }
    assert_eq!(difficulty_to_cefr("beginner").as_deref(), Some("A1"));
    assert_eq!(difficulty_to_cefr("Beginner"), None);
    assert_eq!(difficulty_to_cefr("expert"), None);
}

#[test]
fn duplicate_detection_is_symmetric() {
    let pairs = [
        ("Verb: remind vs notice", "Verbs: remind vs notice"),
        ("Verb vs Noun", "Adverb or Adjective"),
        ("Present perfect", "Present perfect continuous"),
        ("the", "Ser vs estar"),
    ];
    for (a, b) in pairs {
        assert_eq!(
            is_duplicate_name(&[a.to_string()], b).is_some(),
            is_duplicate_name(&[b.to_string()], a).is_some()
        );
    }
    assert_eq!(is_duplicate_name(&["Verb: remind vs notice".to_string()], "Verbs: remind vs notice"), Some(0));
    assert_eq!(is_duplicate_name(&["Verb vs Noun".to_string()], "Adverb or Adjective"), None);
    // A list answers with its first name that is a duplicate on its own.
    let list = ["Ser vs estar".to_string(), "Verb: remind vs notice".to_string(), "Remind vs notice".to_string()];
    assert_eq!(is_duplicate_name(&list, "Verbs: remind vs notice"), Some(1));
}

#[test]
fn abstract_names_are_removed_and_never_learning_items() {
    for name in ["  Common Spelling Errors ", "Basic Vocabulary: food", "Advanced grammar / style"] {
        assert!(is_abstract_topic_name(name));
        assert!(should_remove_topic(name));
        assert!(!is_learning_item_name(name));
    }
    assert!(should_remove_topic("Spelling of b/v"));
    assert!(!should_remove_topic("Ser vs estar"));
    assert!(is_learning_item_name("Ser vs estar"));
}

#[test]
fn feats_keys_are_normalized_once_and_for_all() {
    for feats in ["Tense=Present|Mood=Indicative", " | Number=Plural|| gender=Fem |", "", "Case=Nom|Case=Nom|case=nom"] {
        let key = normalize_feats_key(feats);
        assert_eq!(normalize_feats_key(&key), key);
        let segments: Vec<&str> = if key.is_empty() { vec![] } else { key.split('|').collect() };
        for s in &segments {
            assert!(!s.is_empty());
            assert_eq!(s.trim(), *s);
            assert_eq!(s.to_lowercase(), *s);
        }
        assert!(segments.windows(2).all(|w| w[0] < w[1]));
    }
    assert_eq!(normalize_feats_key("Tense=Present|Mood=Indicative"), "mood=ind|tense=pres");
    assert_eq!(normalize_feats_key("Mood=Ind| tense=pres |"), "mood=ind|tense=pres");
}

use open_course::session::models::{
    AnalysisResult, Exercise, GrammarError, GrammarErrorType, SemanticVerdict, SentenceAnalysis,
};
use open_course::session::scoring::{
    collect_topic_errors, count_topic_occurrences, error_based_score, error_penalty,
    exercise_score_for_sentence, topic_exercise_scores,
};

fn exercise(target: &[&str], side: &[&str]) -> Exercise {
    Exercise {
        id: "e".to_string(),
        target_sentence: String::new(),
        expected_translation: String::new(),
        acceptable_translations: vec![],
        target_topic_ids: target.iter().map(|s| s.to_string()).collect(),
        side_topic_ids: side.iter().map(|s| s.to_string()).collect(),
        expected_patterns: vec![],
        hint: None,
        target_unit_ids: None,
    }
}

#[test]
fn counts_each_exercise_once_per_topic() {
    let exercises = vec![
        exercise(&["t1", "t2"], &["t3"]),
        exercise(&["t1"], &["t1", "t2"]),
        exercise(&[], &["t3"]),
    ];
    let counts = count_topic_occurrences(&exercises);
    assert_eq!(
        counts,
        vec![("t1".to_string(), 2), ("t2".to_string(), 2), ("t3".to_string(), 2)]
    );
}

#[test]
fn no_exercises_no_counts() {
    assert!(count_topic_occurrences(&[]).is_empty());
    assert!(count_topic_occurrences(&[exercise(&[], &[])]).is_empty());
}

fn error(pattern: &str) -> GrammarError {
    GrammarError { error_type: GrammarErrorType::Major, pattern: pattern.to_string(), ..Default::default() }
}

fn sentence(number: i32, errors: Vec<GrammarError>) -> SentenceAnalysis {
    SentenceAnalysis {
        sentence_number: number,
        student_translation: String::new(),
        expected_translation: String::new(),
        acceptable_translations: vec![],
        semantic_verdict: SemanticVerdict::NeedsCorrection,
        errors,
        per_sentence_feedback: vec![],
        used_vocabulary: vec![],
    }
}

fn analysis(sentences: Vec<SentenceAnalysis>) -> AnalysisResult {
    AnalysisResult {
        session_score_bits: None,
        sentences,
        evaluated_topics: vec![],
        new_topics: vec![],
        new_learning_items: vec![],
        new_lemmas: vec![],
        new_forms: vec![],
    }
}

fn patterns(errors: &[GrammarError]) -> Vec<&str> {
    errors.iter().map(|e| e.pattern.as_str()).collect()
}

#[test]
fn errors_are_filed_under_every_topic_of_their_exercise() {
    let exercises = vec![exercise(&["t1"], &["t2", "t1"]), exercise(&["t3"], &[]), exercise(&["t1"], &[])];
    let a = analysis(vec![
        sentence(1, vec![error("e1"), error("e2")]),
        sentence(2, vec![]),
        sentence(3, vec![error("e3")]),
    ]);
    let collected = collect_topic_errors(&exercises, &a);
    assert_eq!(collected.len(), 2);
    assert_eq!(collected[0].0, "t1");
    assert_eq!(patterns(&collected[0].1), ["e1", "e2", "e3"]);
    assert_eq!(collected[1].0, "t2");
    assert_eq!(patterns(&collected[1].1), ["e1", "e2"]);
}

#[test]
fn the_last_sentence_with_a_number_wins_and_missing_ones_are_skipped() {
    let exercises = vec![exercise(&["t1"], &[]), exercise(&["t2"], &[])];
    let a = analysis(vec![sentence(1, vec![error("old")]), sentence(1, vec![error("new")])]);
    let collected = collect_topic_errors(&exercises, &a);
    assert_eq!(collected.len(), 1);
    assert_eq!(collected[0].0, "t1");
    assert_eq!(patterns(&collected[0].1), ["new"]);
}

fn typed_error(error_type: GrammarErrorType, topic_ids: &[&str]) -> GrammarError {
    GrammarError {
        error_type,
        topic_ids: topic_ids.iter().map(|s| s.to_string()).collect(),
        ..Default::default()
    }
}

fn judged(number: i32, verdict: SemanticVerdict, errors: Vec<GrammarError>) -> SentenceAnalysis {
    SentenceAnalysis { semantic_verdict: verdict, ..sentence(number, errors) }
}

#[test]
fn exercises_without_unit_ids_score_grammar_only() {
    let exercises = vec![exercise(&["g1"], &[])];
    let analysis = analysis(vec![sentence(1, vec![typed_error(GrammarErrorType::Major, &["g1"])])]);
    let scores = topic_exercise_scores(&exercises, &analysis);
    assert_eq!(scores.len(), 1);
    // 42 points, in half points.
    assert_eq!(scores, vec![("g1".to_string(), vec![84])]);
}

#[test]
fn wrong_sentence_penalties_are_capped() {
    assert_eq!(error_penalty(&[]), 0);
    assert_eq!(error_penalty(&[typed_error(GrammarErrorType::Critical, &[]), typed_error(GrammarErrorType::Major, &[])]), 23);
    assert_eq!(error_penalty(&[typed_error(GrammarErrorType::Minor, &[]), typed_error(GrammarErrorType::Spelling, &[])]), 4);
    let many = vec![typed_error(GrammarErrorType::Critical, &[]); 3];
    assert_eq!(error_penalty(&many), 40);
    assert_eq!(error_based_score(&[]), 100);
    assert_eq!(error_based_score(&[typed_error(GrammarErrorType::Major, &[])]), 42);
    assert_eq!(error_based_score(&many), 10);
}

#[test]
fn sentence_scores_follow_the_verdict() {
    let errors = vec![typed_error(GrammarErrorType::Major, &[]), typed_error(GrammarErrorType::Spelling, &[])];
    assert_eq!(exercise_score_for_sentence(Some(SemanticVerdict::Correct), &errors), 200);
    // 90 - 5 - 0.5 = 84.5 points.
    assert_eq!(exercise_score_for_sentence(Some(SemanticVerdict::Acceptable), &errors), 169);
    // An acceptable sentence never drops below 70 points.
    let many = vec![typed_error(GrammarErrorType::Critical, &[]); 5];
    assert_eq!(exercise_score_for_sentence(Some(SemanticVerdict::Acceptable), &many), 140);
    // 50 - 8 - 1 = 41 points.
    assert_eq!(exercise_score_for_sentence(Some(SemanticVerdict::NeedsCorrection), &errors), 82);
    assert_eq!(exercise_score_for_sentence(None, &[]), 200);
}

#[test]
fn topic_scores_count_only_the_errors_of_each_topic() {
    let exercises = vec![exercise(&["g1"], &["g3"]), exercise(&["g1"], &[]), exercise(&["g2"], &[])];
    let analysis = analysis(vec![
        sentence(
            1,
            vec![typed_error(GrammarErrorType::Major, &["g1"]), typed_error(GrammarErrorType::Minor, &["g2"]), typed_error(GrammarErrorType::Spelling, &[])],
        ),
        judged(2, SemanticVerdict::Correct, vec![]),
    ]);
    let scores = topic_exercise_scores(&exercises, &analysis);
    // Exercise 1: g1 sees its major error and the untagged spelling one
    // (50 - 8 - 1), g3 the spelling one (50 - 1), g2 its minor one (50 - 3).
    // Exercise 2 is correct; exercise 3 has no analysed sentence.
    assert_eq!(
        scores,
        vec![
            ("g1".to_string(), vec![82, 200]),
            ("g3".to_string(), vec![98]),
            ("g2".to_string(), vec![94, 200]),
        ]
    );
}

fn exercise_with_units(target: &[&str], units: Option<&[&str]>) -> Exercise {
    Exercise {
        target_unit_ids: units.map(|u| u.iter().map(|s| s.to_string()).collect()),
        ..exercise(target, &[])
    }
}

fn score_of(scores: &[(String, Vec<u64>)], id: &str) -> Vec<u64> {
    scores.iter().find(|(k, _)| k == id).map(|(_, v)| v.clone()).unwrap()
}

#[test]
fn unit_ids_are_scored_from_the_whole_exercise() {
    // One exercise practising grammar topic g1 and unit unit_1; the wrong
    // sentence has a major error attributed to g1 and a minor one
    // attributed to g2 (not practised by the exercise).
    let exercises = vec![exercise_with_units(&["g1"], Some(&["unit_1"]))];
    let analysis = analysis(vec![sentence(
        1,
        vec![typed_error(GrammarErrorType::Major, &["g1"]), typed_error(GrammarErrorType::Minor, &["g2"])],
    )]);
    let scores = topic_exercise_scores(&exercises, &analysis);
    // Grammar topics only see errors attributed to them: 50-8 and 50-3
    // (in half points).
    assert_eq!(score_of(&scores, "g1"), vec![84]);
    assert_eq!(score_of(&scores, "g2"), vec![94]);
    // The unit is measured by the exercise as a whole: 50-8-3.
    assert_eq!(score_of(&scores, "unit_1"), vec![78]);
    assert_eq!(scores.len(), 3);
}

#[test]
fn unit_ema_shares_the_topic_alpha_schedule() {
    // A clean correct sentence scores the unit 100 like any topic.
    let exercises = vec![exercise_with_units(&[], Some(&["unit_1"]))];
    let analysis = analysis(vec![judged(1, SemanticVerdict::Correct, vec![])]);
    let scores = topic_exercise_scores(&exercises, &analysis);
    assert_eq!(scores, vec![("unit_1".to_string(), vec![200])]);
}

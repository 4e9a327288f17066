use open_course::curriculum::Topic;
use open_course::error::AppError;
use open_course::llm::clean::clean_json_response;
use open_course::llm::parse::{
    analysis_parse_errors, build_parse_error, curriculum_parse_errors, error_excerpt,
    exercise_parse_errors, id_member, parse_analysis, parse_curriculum_level, parse_exercises,
    parse_session_exercises, sanitize_curriculum_ids, validate_analysis_sentences, Exercises,
    JsonFailure, LevelCurriculum, RawClozeItem, RawWarmupItem,
};
use open_course::llm::response::LlmResponse;
use open_course::session::models::{
    AnalysisResult, EvaluatedTopic, Exercise, SemanticVerdict, SentenceAnalysis, VocabularyUse,
};

#[test]
fn clean_json_unwraps_markdown_fence() {
    let raw = "```json\n{\"a\": 1}\n```";
    assert_eq!(clean_json_response(raw), "{\"a\": 1}");
}

#[test]
fn clean_json_keeps_bare_json() {
    let raw = "{\"a\": 1}";
    assert_eq!(clean_json_response(raw), "{\"a\": 1}");
}

#[test]
fn clean_json_extracts_bare_array() {
    let raw = "[1, {\"a\": 2}]";
    assert_eq!(clean_json_response(raw), "[1, {\"a\": 2}]");
}

#[test]
fn clean_json_handles_nested_braces_and_trailing_garbage() {
    let raw = "{\"a\": {\"b\": [1, {\"c\": 2}]}} trailing text";
    assert_eq!(clean_json_response(raw), "{\"a\": {\"b\": [1, {\"c\": 2}]}}");
}

#[test]
fn clean_json_ignores_braces_inside_strings() {
    let raw = "{\"text\": \"use {curly} braces\"} extra";
    assert_eq!(clean_json_response(raw), "{\"text\": \"use {curly} braces\"}");
}

#[test]
fn clean_json_handles_escaped_quotes_in_strings() {
    let raw = "{\"text\": \"he said \\\"hi\\\"\"} extra";
    assert_eq!(clean_json_response(raw), "{\"text\": \"he said \\\"hi\\\"\"}");
}

#[test]
fn clean_json_replaces_raw_newlines_with_spaces() {
    let raw = "{\"text\":\n\"multi\nline\"}";
    assert_eq!(clean_json_response(raw), "{\"text\": \"multi line\"}");
}

#[test]
fn clean_json_returns_trimmed_input_for_unclosed_json() {
    let raw = "  {\"a\": 1  ";
    assert_eq!(clean_json_response(raw), "{\"a\": 1");
}

#[test]
fn clean_json_without_json_returns_trimmed_text_without_carriage_returns() {
    assert_eq!(clean_json_response("  no json here\r\n "), "no json here");
    assert_eq!(clean_json_response("x [1, [2]] y"), "[1, [2]]");
}

#[test]
fn sanitize_ids_lowercases_and_replaces_special_chars() {
    let raw = r#"{"id": "My Topic! (B1)", "name": "x"}"#;
    assert_eq!(sanitize_curriculum_ids(raw), r#"{"id": "my-topic---b1-", "name": "x"}"#);
}

#[test]
fn sanitize_ids_replaces_spaces_and_slashes() {
    let raw = r#"{"id": "Hello World/a_b"}"#;
    assert_eq!(sanitize_curriculum_ids(raw), r#"{"id": "hello-world-a-b"}"#);
}

#[test]
fn sanitize_ids_keeps_valid_ids_untouched() {
    let raw = r#"{"id": "already-valid-123"}"#;
    assert_eq!(sanitize_curriculum_ids(raw), r#"{"id": "already-valid-123"}"#);
}

#[test]
fn sanitize_ids_handles_empty_id() {
    let raw = r#"{"id": ""}"#;
    assert_eq!(sanitize_curriculum_ids(raw), r#"{"id": ""}"#);
}

#[test]
fn sanitize_ids_fixes_every_id_in_document() {
    let raw = r#"[{"id": "A B"}, {"id": "C D"}]"#;
    assert_eq!(sanitize_curriculum_ids(raw), r#"[{"id": "a-b"}, {"id": "c-d"}]"#);
}

#[test]
fn sanitize_ids_normalizes_spacing_around_the_colon() {
    let raw = r#"{"id"  :"X"}"#;
    assert_eq!(sanitize_curriculum_ids(raw), r#"{"id": "x"}"#);
    assert_eq!(sanitize_curriculum_ids("no ids"), "no ids");
}

#[test]
fn id_member_keeps_only_kebab_characters() {
    assert_eq!(id_member("Ñandú 2"), "\"id\": \"-and--2\"");
    assert_eq!(id_member("a-b"), "\"id\": \"a-b\"");
}

fn exercise(id: &str) -> Exercise {
    Exercise {
        id: id.to_string(),
        target_sentence: "Hola".to_string(),
        expected_translation: "Hello".to_string(),
        acceptable_translations: vec![],
        target_topic_ids: vec!["t1".to_string()],
        side_topic_ids: vec![],
        expected_patterns: vec![],
        hint: None,
        target_unit_ids: None,
    }
}

fn exercise_json(id: &str) -> String {
    format!(
        r#"{{"id": "{id}", "targetSentence": "Hola", "expectedTranslation": "Hello", "targetTopicIds": ["t1"], "sideTopicIds": []}}"#
    )
}

fn session(exercises: Vec<Exercise>) -> Exercises {
    Exercises { exercises, warmup: vec![], vocabulary: vec![], cloze: vec![] }
}

#[test]
fn parse_exercises_accepts_wrapper_object() {
    let cleaned = format!(r#"{{"exercises": [{}]}}"#, exercise_json("ex1"));
    let result =
        parse_exercises(&cleaned, 0, 0, Some(session(vec![exercise("ex1")])), None).unwrap();
    assert_eq!(result.len(), 1);
    assert_eq!(result[0].id, "ex1");
}

#[test]
fn parse_exercises_accepts_bare_array() {
    let cleaned = format!("[{}]", exercise_json("ex1"));
    let result = parse_exercises(&cleaned, 0, 0, None, Some(vec![exercise("ex1")])).unwrap();
    assert_eq!(result.len(), 1);
}

#[test]
fn parse_exercises_rejects_sentences_object() {
    let cleaned = r#"{"sentences": []}"#;
    let err = parse_exercises(cleaned, 0, 0, None, None).unwrap_err();
    assert_eq!(err.to_string(), "LLM error: JSON does not match expected exercise schema");
}

#[test]
fn parse_exercises_empty_response_error_text() {
    let err = parse_exercises("", 3, 7, None, None).unwrap_err();
    assert_eq!(err.to_string(), "LLM error: empty response (content 3 chars, reasoning 7 chars)");
}

#[test]
fn parse_exercises_rejects_empty_wrapper() {
    let err = parse_exercises(r#"{"exercises": []}"#, 0, 0, Some(session(vec![])), None)
        .unwrap_err();
    assert_eq!(err.to_string(), "LLM error: parsed JSON contains no exercises");
}

#[test]
fn parse_exercises_rejects_empty_array() {
    let err = parse_exercises("[]", 0, 0, None, Some(vec![])).unwrap_err();
    assert_eq!(err.to_string(), "LLM error: parsed JSON array is empty");
}

#[test]
fn parse_exercises_blank_reply_wins_over_readings() {
    let err = parse_exercises(" \n ", 1, 2, Some(session(vec![exercise("x")])), None).unwrap_err();
    assert_eq!(err, AppError::Llm("empty response (content 1 chars, reasoning 2 chars)".to_string()));
}

#[test]
fn parse_session_exercises_defaults_warmup_when_absent() {
    let cleaned = format!(r#"{{"exercises": [{}]}}"#, exercise_json("ex1"));
    let result =
        parse_session_exercises(&cleaned, 0, 0, Some(session(vec![exercise("ex1")])), None)
            .unwrap();
    assert_eq!(result.exercises.len(), 1);
    assert!(result.warmup.is_empty());
}

#[test]
fn parse_session_exercises_parses_warmup() {
    let cleaned = format!(
        r#"{{"exercises": [{}], "warmup": [{{"lemma": "comer", "pos": "VERB", "cefrLevel": "A1", "translation": "есть", "example": "Como pan."}}, {{"lemma": "pequeño"}}]}}"#,
        exercise_json("ex1")
    );
    let mut read = session(vec![exercise("ex1")]);
    read.warmup = vec![
        RawWarmupItem {
            lemma: "comer".to_string(),
            pos: Some("VERB".to_string()),
            cefr_level: Some("A1".to_string()),
            translation: Some("есть".to_string()),
            example: Some("Como pan.".to_string()),
        },
        RawWarmupItem { lemma: "pequeño".to_string(), ..Default::default() },
    ];
    let result = parse_session_exercises(&cleaned, 0, 0, Some(read), None).unwrap();
    assert_eq!(result.warmup.len(), 2);
    assert_eq!(result.warmup[0].lemma, "comer");
    assert_eq!(result.warmup[0].pos.as_deref(), Some("VERB"));
    assert_eq!(result.warmup[0].cefr_level.as_deref(), Some("A1"));
    assert_eq!(result.warmup[0].translation.as_deref(), Some("есть"));
    assert_eq!(result.warmup[0].example.as_deref(), Some("Como pan."));
    assert_eq!(result.warmup[1].lemma, "pequeño");
    assert_eq!(result.warmup[1].translation, None);
    assert_eq!(result.warmup[1].example, None);
}

#[test]
fn parse_session_exercises_bare_array_has_empty_warmup() {
    let cleaned = format!("[{}]", exercise_json("ex1"));
    let result = parse_session_exercises(&cleaned, 0, 0, None, Some(vec![exercise("ex1")])).unwrap();
    assert_eq!(result.exercises.len(), 1);
    assert!(result.warmup.is_empty());
    assert!(result.cloze.is_empty());
}

#[test]
fn parse_session_exercises_defaults_cloze_when_absent() {
    let cleaned = format!(r#"{{"exercises": [{}]}}"#, exercise_json("ex1"));
    let result =
        parse_session_exercises(&cleaned, 0, 0, Some(session(vec![exercise("ex1")])), None)
            .unwrap();
    assert_eq!(result.exercises.len(), 1);
    assert!(result.cloze.is_empty());
}

#[test]
fn parse_session_exercises_parses_cloze() {
    let cleaned = format!(
        r#"{{"exercises": [{}], "cloze": [{{"lemma": "comer", "sentence": "Como pan cada día.", "answer": "Como", "distractors": ["Comes", "Comer"], "translation": "Я ем хлеб каждый день.", "pos": "VERB", "cefrLevel": "A1"}}, {{"lemma": "pequeño"}}]}}"#,
        exercise_json("ex1")
    );
    let mut read = session(vec![exercise("ex1")]);
    read.cloze = vec![
        RawClozeItem {
            lemma: "comer".to_string(),
            sentence: "Como pan cada día.".to_string(),
            answer: "Como".to_string(),
            distractors: vec!["Comes".to_string(), "Comer".to_string()],
            translation: Some("Я ем хлеб каждый день.".to_string()),
            pos: Some("VERB".to_string()),
            cefr_level: Some("A1".to_string()),
        },
        RawClozeItem { lemma: "pequeño".to_string(), ..Default::default() },
    ];
    let result = parse_session_exercises(&cleaned, 0, 0, Some(read), None).unwrap();
    assert_eq!(result.cloze.len(), 2);
    assert_eq!(result.cloze[0].lemma, "comer");
    assert_eq!(result.cloze[0].sentence, "Como pan cada día.");
    assert_eq!(result.cloze[0].answer, "Como");
    assert_eq!(result.cloze[0].distractors, ["Comes", "Comer"]);
    assert_eq!(result.cloze[0].translation.as_deref(), Some("Я ем хлеб каждый день."));
    assert_eq!(result.cloze[0].pos.as_deref(), Some("VERB"));
    assert_eq!(result.cloze[0].cefr_level.as_deref(), Some("A1"));
    assert_eq!(result.cloze[1].lemma, "pequeño");
    assert!(result.cloze[1].sentence.is_empty());
    assert!(result.cloze[1].distractors.is_empty());
    assert_eq!(result.cloze[1].translation, None);
}

fn sentence(number: i32) -> SentenceAnalysis {
    SentenceAnalysis {
        sentence_number: number,
        student_translation: String::new(),
        expected_translation: String::new(),
        acceptable_translations: vec![],
        semantic_verdict: SemanticVerdict::Correct,
        errors: vec![],
        per_sentence_feedback: vec![],
        used_vocabulary: vec![],
    }
}

fn sentence_json(number: i32) -> String {
    format!(r#"{{"sentenceNumber": {number}, "errors": [], "perSentenceFeedback": []}}"#)
}

fn analysis_with(numbers: &[i32]) -> AnalysisResult {
    AnalysisResult {
        session_score_bits: None,
        sentences: numbers.iter().map(|&n| sentence(n)).collect(),
        evaluated_topics: vec![],
        new_topics: vec![],
        new_learning_items: vec![],
        new_lemmas: vec![],
        new_forms: vec![],
    }
}

#[test]
fn parse_analysis_accepts_full_wrapper_object() {
    let cleaned = format!(
        r#"{{"sessionScore": 0.9, "sentences": [{}], "evaluatedTopics": [], "newTopics": []}}"#,
        sentence_json(1)
    );
    let mut read = analysis_with(&[1]);
    read.session_score_bits = Some(0.9f64.to_bits());
    let result = parse_analysis(&cleaned, 1, 0, 0, Some(read), None, Some(vec![sentence(1)])).unwrap();
    assert_eq!(result.sentences.len(), 1);
    assert_eq!(result.session_score_bits.map(f64::from_bits), Some(0.9));
}

#[test]
fn parse_analysis_accepts_sentences_only_object() {
    let cleaned = format!(r#"{{"sentences": [{}]}}"#, sentence_json(1));
    let result = parse_analysis(&cleaned, 1, 0, 0, Some(analysis_with(&[1])), None, Some(vec![sentence(1)]))
        .unwrap();
    assert_eq!(result.sentences.len(), 1);
    assert_eq!(result.session_score_bits, None);
}

#[test]
fn parse_analysis_accepts_bare_sentence_array() {
    let cleaned = format!("[{}]", sentence_json(1));
    let result = parse_analysis(&cleaned, 1, 0, 0, None, Some(vec![sentence(1)]), None).unwrap();
    assert_eq!(result.sentences.len(), 1);
    assert_eq!(result.session_score_bits, None);
    assert!(result.evaluated_topics.is_empty());
}

#[test]
fn parse_analysis_empty_response_error_text() {
    let err = parse_analysis("   ", 2, 10, 20, None, None, None).unwrap_err();
    assert_eq!(err.to_string(), "LLM error: empty response (content 10 chars, reasoning 20 chars)");
}

#[test]
fn parse_analysis_rejects_unrelated_json() {
    let err = parse_analysis("42", 1, 0, 0, None, None, None).unwrap_err();
    assert_eq!(err.to_string(), "LLM error: JSON does not match expected analysis schema");
}

fn used_vocabulary() -> Vec<VocabularyUse> {
    vec![
        VocabularyUse {
            surface: "manzana".to_string(),
            lemma: "manzana".to_string(),
            pos: "NOUN".to_string(),
            feats: "Gender=Fem|Number=Sing".to_string(),
            side: "target".to_string(),
            spelling_ok: None,
            usage_ok: None,
            expected_form: true,
            cefr_level: Some("A1".to_string()),
        },
        VocabularyUse {
            surface: "komo".to_string(),
            lemma: "comer".to_string(),
            pos: "VERB".to_string(),
            feats: "Mood=Ind|Number=Sing|Person=1|Tense=Pres".to_string(),
            side: "student".to_string(),
            spelling_ok: Some(false),
            usage_ok: Some(true),
            expected_form: true,
            cefr_level: None,
        },
    ]
}

fn sentence_with_vocabulary() -> SentenceAnalysis {
    let mut s = sentence(1);
    s.used_vocabulary = used_vocabulary();
    s
}

#[test]
fn parse_analysis_parses_used_vocabulary() {
    let read = {
        let mut a = analysis_with(&[]);
        a.sentences = vec![sentence_with_vocabulary()];
        a
    };
    let cleaned = r#"{"sentences": [{"sentenceNumber": 1, "errors": [], "perSentenceFeedback": [], "usedVocabulary": []}]}"#;
    let result = parse_analysis(cleaned, 1, 0, 0, Some(read), None, Some(vec![sentence_with_vocabulary()])).unwrap();
    let used = &result.sentences[0].used_vocabulary;
    assert_eq!(used.len(), 2);
    assert_eq!(used[0].side, "target");
    assert_eq!(used[0].spelling_ok, None);
    assert!(used[0].expected_form);
    assert_eq!(used[0].cefr_level.as_deref(), Some("A1"));
    assert_eq!(used[1].lemma, "comer");
    assert_eq!(used[1].spelling_ok, Some(false));
    assert_eq!(used[1].usage_ok, Some(true));
    assert_eq!(used[1].cefr_level, None);
}

#[test]
fn parse_analysis_defaults_used_vocabulary_when_absent() {
    let cleaned = format!("[{}]", sentence_json(1));
    let result = parse_analysis(&cleaned, 1, 0, 0, None, Some(vec![sentence(1)]), None).unwrap();
    assert!(result.sentences[0].used_vocabulary.is_empty());
}

#[test]
fn parse_analysis_keeps_used_vocabulary_through_value_fallback() {
    let cleaned = r#"{"sessionScore": "high", "sentences": [{"sentenceNumber": 1, "errors": [], "perSentenceFeedback": [], "usedVocabulary": []}]}"#;
    let result = parse_analysis(cleaned, 1, 0, 0, None, None, Some(vec![sentence_with_vocabulary()])).unwrap();
    assert_eq!(result.sentences[0].used_vocabulary.len(), 2);
}

#[test]
fn parse_analysis_prefers_the_full_object_and_validates_it() {
    let mut read = analysis_with(&[0, 0]);
    read.evaluated_topics =
        vec![EvaluatedTopic { topic_id: "t1".to_string(), score_bits: 80.0f64.to_bits(), previous_score_bits: None }];
    let result = parse_analysis("{...}", 2, 0, 0, Some(read), Some(vec![sentence(7)]), None).unwrap();
    assert_eq!(result.sentences.iter().map(|s| s.sentence_number).collect::<Vec<_>>(), vec![1, 2]);
    assert_eq!(result.evaluated_topics.len(), 1);
    let err = parse_analysis("[...]", 2, 0, 0, None, Some(vec![sentence(7)]), None).unwrap_err();
    assert_eq!(err.to_string(), "LLM error: expected 2 sentences, got 1");
}

#[test]
fn validate_renumbers_missing_sentence_numbers() {
    let analysis = analysis_with(&[0, -2, 5]);
    let result = validate_analysis_sentences(analysis, 3, 0, 0).unwrap();
    let numbers: Vec<i32> = result.sentences.iter().map(|s| s.sentence_number).collect();
    assert_eq!(numbers, vec![1, 2, 5]);
}

#[test]
fn validate_rejects_sentence_count_mismatch() {
    let analysis = analysis_with(&[1]);
    let err = validate_analysis_sentences(analysis, 2, 0, 0).unwrap_err();
    assert_eq!(err.to_string(), "LLM error: expected 2 sentences, got 1");
}

#[test]
fn validate_rejects_empty_sentences() {
    let analysis = analysis_with(&[]);
    let err = validate_analysis_sentences(analysis, 0, 4, 6).unwrap_err();
    assert_eq!(err.to_string(), "LLM error: analysis has no sentences (content 4 chars, reasoning 6 chars)");
}

#[test]
fn validate_keeps_other_fields() {
    let mut analysis = analysis_with(&[3]);
    analysis.new_topics = vec![Topic { id: "t".to_string(), ..Default::default() }];
    let result = validate_analysis_sentences(analysis, 1, 0, 0).unwrap();
    assert_eq!(result.sentences[0].sentence_number, 3);
    assert_eq!(result.new_topics.len(), 1);
}

#[test]
fn parse_error_quotes_short_replies_whole() {
    let response = LlmResponse { raw: "{bad".to_string(), content_chars: 4, reasoning_chars: 9 };
    let err = build_parse_error("exercises", &response, "{bad", "as array: eof", Some("/tmp/dump.json"));
    assert_eq!(
        err.to_string(),
        "LLM error: Failed to generate exercises after all retries.\nRaw (4 chars, content 4 chars, reasoning 9 chars): {bad\nCleaned: {bad\nParse errors: as array: eof\nFull dump written to: /tmp/dump.json"
    );
    let err = build_parse_error("analysis", &LlmResponse::empty(), "", "", None);
    assert_eq!(
        err.to_string(),
        "LLM error: Failed to generate analysis after all retries.\nRaw (0 chars, content 0 chars, reasoning 0 chars): \nCleaned: \nParse errors: "
    );
}

#[test]
fn parse_error_truncates_long_replies_at_500_bytes() {
    let raw = "é".repeat(300);
    let response = LlmResponse::from_text(raw.clone());
    assert_eq!(response.content_chars, 300);
    let err = build_parse_error("exercises", &response, "x", "e", None);
    let expected_preview = format!("{}...[truncated, total 600 chars]", "é".repeat(250));
    assert_eq!(
        err.to_string(),
        format!(
            "LLM error: Failed to generate exercises after all retries.\nRaw (600 chars, content 300 chars, reasoning 0 chars): {expected_preview}\nCleaned: x\nParse errors: e"
        )
    );
}

fn failure(text: &str) -> JsonFailure {
    let e = serde_json::from_str::<serde_json::Value>(text).unwrap_err();
    JsonFailure { message: e.to_string(), column: e.column() }
}

#[test]
fn parse_curriculum_error_includes_excerpt_around_failure() {
    let cleaned = r#"{"topics": [{"id": "My Topic!", "name": "x",}"#;
    let first = Err(failure(cleaned));
    let retry = Err(failure(&sanitize_curriculum_ids(cleaned)));
    let err = parse_curriculum_level(cleaned, "C1", cleaned.len(), 0, first, retry).unwrap_err();
    let msg = err.to_string();
    assert!(msg.contains("Failed to parse C1 curriculum response"), "{msg}");
    assert!(msg.contains("sanitized retry:"), "{msg}");
    assert!(msg.contains("<<PARSE ERROR HERE>>"), "{msg}");
    assert!(msg.contains(r#""name": "x","#), "{msg}");
}

#[test]
fn error_excerpt_handles_multibyte_chars_and_edges() {
    let text = format!("{{\"topics\": \"{}\",}}", "п".repeat(300));
    let f = failure(&text);
    let excerpt = error_excerpt(&text, f.column);
    assert!(excerpt.contains("<<PARSE ERROR HERE>>"), "{excerpt}");
    assert!(excerpt.starts_with('…'), "{excerpt}");

    let f = failure("}");
    let excerpt = error_excerpt("}", f.column);
    assert_eq!(excerpt, " <<PARSE ERROR HERE>> }");
}

#[test]
fn error_excerpt_cuts_at_character_boundaries() {
    assert_eq!(error_excerpt("ab", 0), " <<PARSE ERROR HERE>> ab");
    assert_eq!(error_excerpt("пр", 2), " <<PARSE ERROR HERE>> пр");
    assert_eq!(error_excerpt("пр", 3), "п <<PARSE ERROR HERE>> р");
    assert_eq!(error_excerpt("пр", 99), "пр <<PARSE ERROR HERE>> ");
    let long = "a".repeat(300);
    let excerpt = error_excerpt(&long, 151);
    assert_eq!(excerpt, format!("…{} <<PARSE ERROR HERE>> {}…", "a".repeat(120), "a".repeat(120)));
}

#[test]
fn parse_curriculum_level_uses_first_good_reading() {
    let topic = Topic { id: "t1".to_string(), name: "Topic".to_string(), ..Default::default() };
    let good = || Ok(LevelCurriculum { topics: vec![topic.clone()] });
    let topics = parse_curriculum_level("{...}", "A1", 0, 0, good(), Err(failure("}"))).unwrap();
    assert_eq!(topics.len(), 1);
    let topics = parse_curriculum_level("{...}", "A1", 0, 0, Err(failure("}")), good()).unwrap();
    assert_eq!(topics[0].id, "t1");
    let err = parse_curriculum_level("{...}", "B2", 0, 0, Ok(LevelCurriculum { topics: vec![] }), good())
        .unwrap_err();
    assert_eq!(err.to_string(), "LLM error: Level B2 curriculum returned no topics");
    let err = parse_curriculum_level("  ", "B2", 5, 6, good(), good()).unwrap_err();
    assert_eq!(err.to_string(), "LLM error: empty response (content 5 chars, reasoning 6 chars)");
}

#[test]
fn reading_errors_are_summarized() {
    assert_eq!(
        exercise_parse_errors(Some("eof".to_string()), Some("bad".to_string())),
        "as {exercises}: eof; as array: bad"
    );
    assert_eq!(exercise_parse_errors(None, None), "; ");
    assert_eq!(
        analysis_parse_errors(2, Some("x".to_string()), None),
        "expected 2 sentences; top-level: top-level: x; array: "
    );
    assert_eq!(curriculum_parse_errors("A2", Some("eof".to_string())), "A2 curriculum parse: eof");
    assert_eq!(curriculum_parse_errors("A2", None), "");
}

#[test]
fn sanitize_ids_tolerates_whitespace_and_skips_non_members() {
    let raw = "{\"id\" :\n \"A B\", \"idx\": \"Q\", \"name\": \"\\\"id\\\"\", \"id\":\"unclosed";
    assert_eq!(
        sanitize_curriculum_ids(raw),
        "{\"id\": \"a-b\", \"idx\": \"Q\", \"name\": \"\\\"id\\\"\", \"id\":\"unclosed"
    );
}

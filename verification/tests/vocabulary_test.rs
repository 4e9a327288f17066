use open_course::llm::parse::{RawClozeItem, RawVocabularyItem, RawWarmupItem};
use open_course::session::models::{
    Exercise, GrammarError, GrammarErrorType, SemanticVerdict, SentenceAnalysis, VocabularyUse,
    WarmupKind,
};
use open_course::vocabulary::{
    cefr_source_rank, cloze_items, derive_status, feats_similarity_fraction, find_form,
    find_form_fuzzy, find_lemma, is_content_pos, match_warmup_items, new_word_items,
    normalize_feats_key, normalize_key, should_replace_cefr, vocabulary_owns_error,
    vocabulary_session_score, Form, Lemma, STATUS_KNOWN, STATUS_NEW, STATUS_PRACTICING,
};
#[test]
fn normalize_feats_key_sorts_and_trims() {
    assert_eq!(
        normalize_feats_key("Tense=Pres | Mood=Ind|Number=Sing"),
        "mood=ind|number=sing|tense=pres"
    );
}

#[test]
fn normalize_feats_key_tolerates_garbage() {
    assert_eq!(normalize_feats_key(""), "");
    assert_eq!(normalize_feats_key("|| |"), "");
    // Malformed segments are kept, not dropped.
    assert_eq!(
        normalize_feats_key("bogus|Number=Sing"),
        "bogus|number=sing"
    );
}

#[test]
fn normalize_feats_key_canonicalizes_full_pairs() {
    assert_eq!(normalize_feats_key("Tense=Present"), "tense=pres");
    assert_eq!(normalize_feats_key("Tense=Preterite"), "tense=past");
    assert_eq!(
        normalize_feats_key(
            "Mood=Indicative|Number=Singular|Person=First|Gender=Feminine|VerbForm=Finite"
        ),
        "gender=fem|mood=ind|number=sing|person=1|verbform=fin"
    );
    // Unknown pairs are only lowercased, never guessed.
    assert_eq!(normalize_feats_key("Tense=Imperfect"), "tense=imperfect");
}

#[test]
fn normalize_feats_key_dedups_after_canonicalization() {
    assert_eq!(
        normalize_feats_key("Number=Sing|Number=Singular|number=sing"),
        "number=sing"
    );
}

#[test]
fn normalize_feats_key_is_order_and_case_insensitive() {
    // "hablo": same feats in a different order and casing produce one key.
    assert_eq!(
        normalize_feats_key("Mood=Ind|Number=Sing|Person=1|Tense=Pres"),
        normalize_feats_key("Tense=Pres | person=1|Number=Sing|MOOD=IND")
    );
    // Full UD values canonicalize to the same key as short ones.
    assert_eq!(
        normalize_feats_key("Mood=Indicative|Tense=Present|Number=Singular|Person=1"),
        normalize_feats_key("mood=ind|tense=pres|number=sing|person=1")
    );
}

#[test]
fn normalize_key_keeps_diacritics() {
    assert_eq!(normalize_key("Año"), "año");
    assert_ne!(normalize_key("año"), normalize_key("ano"));
    // NFKC folds compatibility characters.
    assert_eq!(normalize_key("ﬁnal"), "final");
}

#[test]
fn is_content_pos_filters_function_words() {
    // Conjunctions count as content: discourse markers ("although",
    // "however", "therefore") are lexical items worth tracking, not
    // grammatical scaffolding.
    for pos in [
        "NOUN", "verb", "Adj", "ADV", "PROPN", "SCONJ", "CCONJ", "sconj",
    ] {
        assert!(is_content_pos(pos), "{pos} should be content");
    }
    for pos in ["PART", "ADP", "DET", "PRON", "AUX", "PUNCT"] {
        assert!(!is_content_pos(pos), "{pos} should be function");
    }
    // Empty or unrecognized tags are lazily accepted.
    assert!(is_content_pos(""));
    assert!(is_content_pos("NUM"));
    assert!(is_content_pos("garbage"));
}

#[test]
fn ids_are_deterministic() {
    assert_eq!(Lemma::slug_id("comer", "es"), "es-comer");
    assert_eq!(
        Lemma::slug_id("Pequeño/Pequeña", "es"),
        "es-pequeno-pequena"
    );
    assert_eq!(Form::id("es-comer", "comí"), "es-comer--comi");
    assert_eq!(Form::id("es-comer", "Comí"), "es-comer--comi");
}

#[test]
fn cefr_source_rank_orders_sources() {
    assert_eq!(cefr_source_rank(Some("manual")), 4);
    assert_eq!(cefr_source_rank(Some("list")), 4);
    assert_eq!(cefr_source_rank(Some("topic")), 3);
    assert_eq!(cefr_source_rank(Some("llm")), 2);
    assert_eq!(cefr_source_rank(Some("bogus")), 0);
    assert_eq!(cefr_source_rank(None), 0);
}

#[test]
fn should_replace_cefr_requires_strictly_higher_rank() {
    // llm -> topic replaces.
    assert!(should_replace_cefr(Some("llm"), "topic"));
    // topic -> llm does not.
    assert!(!should_replace_cefr(Some("topic"), "llm"));
    // Missing source is replaced by any known source.
    assert!(should_replace_cefr(None, "llm"));
    // Unknown new source never replaces.
    assert!(!should_replace_cefr(None, "bogus"));
    // Equal rank does not replace.
    assert!(!should_replace_cefr(Some("topic"), "topic"));
    assert!(!should_replace_cefr(Some("manual"), "list"));
}

#[test]
fn find_lemma_matches_case_insensitively() {
    let existing = vec![Lemma {
        id: "es-comer".to_string(),
        lemma: "comer".to_string(),
        pos: "VERB".to_string(),
        target_lang: "es".to_string(),
        ..Default::default()
    }];
    assert_eq!(find_lemma(&existing, "es", "Comer", "verb"), Some(0));
    assert_eq!(find_lemma(&existing, "es", "comer", "NOUN"), None);
    assert_eq!(find_lemma(&existing, "fr", "comer", "VERB"), None);
}

#[test]
fn find_form_dedups_by_feats_key_then_surface() {
    let existing = vec![
        Form {
            id: "es-comer--como".to_string(),
            lemma_id: "es-comer".to_string(),
            surface: "como".to_string(),
            feats_key: "Mood=Ind|Number=Sing|Person=1".to_string(),
            ..Default::default()
        },
        Form {
            id: "es-comer--comi".to_string(),
            lemma_id: "es-comer".to_string(),
            surface: "comí".to_string(),
            feats_key: String::new(),
            ..Default::default()
        },
    ];
    // Same lemma and feats_key -> duplicate.
    assert_eq!(
        find_form(
            &existing,
            "es-comer",
            "como",
            "Mood=Ind|Number=Sing|Person=1"
        ),
        Some(0)
    );
    // Different feats_key -> distinct form.
    assert_eq!(
        find_form(
            &existing,
            "es-comer",
            "como",
            "Mood=Ind|Number=Plur|Person=1"
        ),
        None
    );
    // Empty feats_key falls back to the surface match.
    assert_eq!(find_form(&existing, "es-comer", "Comí", ""), Some(1));
    assert_eq!(find_form(&existing, "es-comer", "como", ""), Some(0));
}

#[test]
fn find_lemma_does_not_merge_diacritics() {
    let existing = vec![Lemma {
        id: "es-ano".to_string(),
        lemma: "ano".to_string(),
        pos: "NOUN".to_string(),
        target_lang: "es".to_string(),
        ..Default::default()
    }];
    assert_eq!(find_lemma(&existing, "es", "año", "NOUN"), None);
    assert_eq!(find_lemma(&existing, "es", "Ano", "noun"), Some(0));
}

fn sentence_with_uses(uses: Vec<VocabularyUse>) -> SentenceAnalysis {
    SentenceAnalysis {
        sentence_number: 1,
        student_translation: String::new(),
        expected_translation: String::new(),
        acceptable_translations: vec![],
        semantic_verdict: SemanticVerdict::NeedsCorrection,
        errors: vec![],
        per_sentence_feedback: vec![],
        used_vocabulary: uses,
    }
}

#[test]
fn vocabulary_owns_error_when_failed_use_matches() {
    let sentence = sentence_with_uses(vec![
        VocabularyUse {
            surface: "pequeño".to_string(),
            lemma: "pequeño".to_string(),
            pos: "ADJ".to_string(),
            side: "student".to_string(),
            spelling_ok: Some(true),
            usage_ok: Some(false),
            ..Default::default()
        },
        VocabularyUse {
            surface: "casa".to_string(),
            lemma: "casa".to_string(),
            pos: "NOUN".to_string(),
            side: "target".to_string(),
            ..Default::default()
        },
    ]);
    let owned = GrammarError {
        error_type: GrammarErrorType::Major,
        pattern: "pequeño vs pequeña".to_string(),
        explanation: "La casa es pequeña: the adjective must agree in gender.".to_string(),
        ..Default::default()
    };
    assert!(vocabulary_owns_error(&sentence, &owned));
}

#[test]
fn vocabulary_owns_error_rejects_constructions_and_clean_uses() {
    let sentence = sentence_with_uses(vec![VocabularyUse {
        surface: "caro".to_string(),
        lemma: "caro".to_string(),
        pos: "ADJ".to_string(),
        side: "student".to_string(),
        spelling_ok: Some(true),
        usage_ok: Some(false),
        ..Default::default()
    }]);
    // A word-pair confusion about different words is not owned.
    let construction = GrammarError {
        error_type: GrammarErrorType::Major,
        pattern: "word order".to_string(),
        explanation: "Adjectives usually follow the noun in Spanish.".to_string(),
        ..Default::default()
    };
    assert!(!vocabulary_owns_error(&sentence, &construction));
    // No failed student-side use -> nothing to own.
    let sentence = sentence_with_uses(vec![VocabularyUse {
        surface: "pequeño".to_string(),
        lemma: "pequeño".to_string(),
        side: "student".to_string(),
        spelling_ok: Some(true),
        usage_ok: Some(true),
        ..Default::default()
    }]);
    let error = GrammarError {
        pattern: "pequeño vs pequeña".to_string(),
        ..Default::default()
    };
    assert!(!vocabulary_owns_error(&sentence, &error));
}

// --- match_warmup_items ---

fn forced_lemma(id: &str, lemma: &str, translation: &str) -> Lemma {
    Lemma {
        id: id.to_string(),
        lemma: lemma.to_string(),
        pos: "VERB".to_string(),
        translation: translation.to_string(),
        ..Default::default()
    }
}

fn raw_warmup(
    lemma: &str,
    translation: Option<&str>,
    example: Option<&str>,
) -> RawWarmupItem {
    RawWarmupItem {
        lemma: lemma.to_string(),
        pos: None,
        cefr_level: None,
        translation: translation.map(|s| s.to_string()),
        example: example.map(|s| s.to_string()),
    }
}

/// Exercise whose expected (target-language) translation contains the
/// given sentence; the native-language `target_sentence` is irrelevant
/// for warm-up matching.
fn exercise(expected_translation: &str) -> Exercise {
    Exercise {
        id: "ex1".to_string(),
        target_sentence: String::new(),
        expected_translation: expected_translation.to_string(),
        acceptable_translations: vec![],
        target_topic_ids: vec![],
        side_topic_ids: vec![],
        expected_patterns: vec![],
        hint: None,
        target_unit_ids: None,
    }
}

fn known_form(lemma_id: &str, surface: &str) -> Form {
    Form {
        id: Form::id(lemma_id, surface),
        lemma_id: lemma_id.to_string(),
        surface: surface.to_string(),
        ..Default::default()
    }
}

#[test]
fn warmup_match_uses_llm_translation_and_example() {
    let forced = vec![forced_lemma("es-comer", "comer", "есть")];
    let raw = vec![raw_warmup("Comer", Some("кушать"), Some("Como pan."))];
    let items = match_warmup_items(&forced, &[], &[], raw);
    assert_eq!(items.len(), 1);
    assert_eq!(items[0].lemma_id.as_deref(), Some("es-comer"));
    // The display form comes from the stored lemma, not the LLM casing.
    assert_eq!(items[0].lemma, "comer");
    assert_eq!(items[0].translation, "кушать");
    assert_eq!(items[0].example.as_deref(), Some("Como pan."));
    assert_eq!(items[0].pos.as_deref(), Some("VERB"));
}

#[test]
fn warmup_match_falls_back_to_stored_translation() {
    let forced = vec![forced_lemma("es-comer", "comer", "есть")];
    let raw = vec![raw_warmup("comer", None, None)];
    let items = match_warmup_items(&forced, &[], &[], raw);
    assert_eq!(items.len(), 1);
    assert_eq!(items[0].translation, "есть");
    assert_eq!(items[0].example, None);
}

#[test]
fn warmup_lemma_in_exercise_without_llm_entry_uses_stored_data() {
    let forced = vec![{
        let mut l = forced_lemma("es-comer", "comer", "есть");
        l.cefr_level = Some("A2".to_string());
        l
    }];
    let exercises = vec![exercise("Quiero comer pan.")];
    let items = match_warmup_items(&forced, &[], &exercises, vec![]);
    assert_eq!(items.len(), 1);
    assert_eq!(items[0].translation, "есть");
    assert_eq!(items[0].cefr_level.as_deref(), Some("A2"));
    assert_eq!(items[0].example, None);
}

#[test]
fn warmup_excludes_lemma_absent_from_exercises_without_llm_entry() {
    let forced = vec![
        forced_lemma("es-comer", "comer", "есть"),
        forced_lemma("es-beber", "beber", "пить"),
    ];
    // Only "comer" shows up in the exercises; "beber" has no known
    // forms and no LLM entry, so it gets no card.
    let exercises = vec![exercise("Quiero comer pan.")];
    let items = match_warmup_items(&forced, &[], &exercises, vec![]);
    assert_eq!(items.len(), 1);
    assert_eq!(items[0].lemma, "comer");

    // Known forms that also never appear do not rescue the lemma.
    let forms = vec![known_form("es-beber", "bebo")];
    let items = match_warmup_items(&forced, &forms, &exercises, vec![]);
    assert_eq!(items.len(), 1);
    assert_eq!(items[0].lemma, "comer");
}

#[test]
fn warmup_matches_inflected_form_in_exercise() {
    let forced = vec![forced_lemma("es-hablar", "hablar", "говорить")];
    let forms = vec![known_form("es-hablar", "hablo")];
    let exercises = vec![exercise("Hablo con Maria.")];
    let items = match_warmup_items(&forced, &forms, &exercises, vec![]);
    assert_eq!(items.len(), 1);
    assert_eq!(items[0].lemma, "hablar");
    assert_eq!(items[0].translation, "говорить");
}

#[test]
fn warmup_matching_is_case_insensitive_but_keeps_diacritics() {
    let forced = vec![
        forced_lemma("es-comer", "Comer", "есть"),
        forced_lemma("es-ano", "ano", "год (без тильды)"),
    ];
    // "COMER" matches case-insensitively; "año" must not match "ano".
    let exercises = vec![exercise("COMER pan este año.")];
    let items = match_warmup_items(&forced, &[], &exercises, vec![]);
    assert_eq!(items.len(), 1);
    assert_eq!(items[0].lemma, "Comer");
}

#[test]
fn warmup_formless_lemma_with_llm_entry_is_trusted() {
    let forced = vec![
        forced_lemma("es-comer", "comer", "есть"),
        forced_lemma("es-hablar", "hablar", "говорить"),
    ];
    // "hablar" has a known form that never appears, so its LLM entry is
    // not enough; "comer" has no forms and is trusted.
    let forms = vec![known_form("es-hablar", "hablo")];
    let raw = vec![
        raw_warmup("comer", Some("кушать"), None),
        raw_warmup("hablar", Some("разговаривать"), None),
    ];
    let items = match_warmup_items(&forced, &forms, &[], raw);
    assert_eq!(items.len(), 1);
    assert_eq!(items[0].lemma, "comer");
    assert_eq!(items[0].translation, "кушать");
}

#[test]
fn warmup_skips_lemmas_without_translation() {
    // Present in an exercise but with no stored translation: nothing to
    // teach.
    let forced = vec![
        forced_lemma("es-comer", "comer", "есть"),
        forced_lemma("es-ser", "ser", ""),
    ];
    let exercises = vec![exercise("Quiero comer y ser feliz.")];
    let items = match_warmup_items(&forced, &[], &exercises, vec![]);
    assert_eq!(items.len(), 1);
    assert_eq!(items[0].lemma, "comer");

    // Matched but the LLM returned an empty translation and the stored
    // one is empty too: skipped as well.
    let forced = vec![forced_lemma("es-ser", "ser", "")];
    let raw = vec![raw_warmup("ser", Some(""), Some("Soy yo."))];
    assert!(match_warmup_items(&forced, &[], &[], raw).is_empty());
}

#[test]
fn warmup_drops_raw_items_matching_no_forced_lemma() {
    let forced = vec![forced_lemma("es-comer", "comer", "есть")];
    let raw = vec![
        raw_warmup("comer", None, None),
        raw_warmup("unrelated", Some("x"), None),
        // Empty lemmas never match anything.
        raw_warmup("", Some("y"), None),
    ];
    let items = match_warmup_items(&forced, &[], &[], raw);
    assert_eq!(items.len(), 1);
    assert_eq!(items[0].lemma, "comer");
}

#[test]
fn warmup_preserves_forced_order_without_cap() {
    let forced: Vec<Lemma> = (0..10)
        .map(|i| forced_lemma(&format!("es-w{i}"), &format!("w{i}"), "t"))
        .collect();
    // Raw order is the reverse of the forced order; output must still
    // follow the forced order, and every qualifying lemma gets a card
    // (no cap).
    let raw: Vec<_> = (0..10)
        .rev()
        .map(|i| raw_warmup(&format!("w{i}"), None, None))
        .collect();
    let items = match_warmup_items(&forced, &[], &[], raw);
    let lemmas: Vec<&str> = items.iter().map(|i| i.lemma.as_str()).collect();
    assert_eq!(
        lemmas,
        ["w0", "w1", "w2", "w3", "w4", "w5", "w6", "w7", "w8", "w9"]
    );
}

#[test]
fn warmup_skips_untranslated_lemmas_without_cap() {
    // Ten qualifying lemmas, the first without a translation: it is
    // skipped and all nine translated lemmas get cards.
    let mut forced = vec![forced_lemma("es-w0", "w0", "")];
    forced.extend((1..10).map(|i| forced_lemma(&format!("es-w{i}"), &format!("w{i}"), "t")));
    let raw: Vec<_> = (0..10)
        .map(|i| raw_warmup(&format!("w{i}"), None, None))
        .collect();
    let items = match_warmup_items(&forced, &[], &[], raw);
    assert_eq!(items.len(), 9);
    assert_eq!(items[0].lemma, "w1");
    assert_eq!(items[8].lemma, "w9");
}

#[test]
fn match_warmup_items_tags_new_status_as_new() {
    let forced = vec![forced_lemma("es-comer", "comer", "есть")];
    // forced_lemma defaults status to STATUS_NEW (0).
    let items = match_warmup_items(&forced, &[], &[], vec![raw_warmup("comer", None, None)]);
    assert_eq!(items[0].kind, WarmupKind::New);
}

#[test]
fn match_warmup_items_tags_practicing_status_as_review() {
    let mut lemma = forced_lemma("es-comer", "comer", "есть");
    lemma.status = STATUS_PRACTICING;
    lemma.mastery_bits = 20.0f64.to_bits();
    let items = match_warmup_items(&[lemma], &[], &[], vec![raw_warmup("comer", None, None)]);
    assert_eq!(items[0].kind, WarmupKind::Review);
}

// --- new_word_items ---

fn raw_vocabulary(
    lemma: &str,
    surface: &str,
    pos: &str,
    translation: Option<&str>,
) -> RawVocabularyItem {
    RawVocabularyItem {
        lemma: lemma.to_string(),
        surface: surface.to_string(),
        pos: Some(pos.to_string()),
        cefr_level: None,
        translation: translation.map(|s| s.to_string()),
    }
}

#[test]
fn new_word_items_excludes_lemmas_answered_correctly() {
    let mut known = forced_lemma("es-comer", "comer", "есть");
    known.correct_uses = 3;
    let existing = vec![known];
    // "comer" appears via its exact headword form here, so the surface
    // check wouldn't be what excludes it — the correct_uses check is.
    let exercises = vec![exercise("Quiero comer y beber.")];
    let raw = vec![
        raw_vocabulary("comer", "comer", "VERB", Some("кушать")),
        raw_vocabulary("beber", "beber", "VERB", Some("пить")),
    ];
    let items = new_word_items(&existing, &exercises, raw);
    // "comer" was answered correctly before — known, no card; only
    // "beber" (no Lemma row at all) qualifies.
    assert_eq!(items.len(), 1);
    assert_eq!(items[0].lemma, "beber");
    assert_eq!(items[0].lemma_id, None);
    assert_eq!(items[0].kind, WarmupKind::New);
}

#[test]
fn new_word_items_includes_existing_lemma_never_answered_correctly() {
    // A Lemma row exists but the word was never answered correctly
    // (correct_uses == 0) — whether STATUS_NEW or PRACTICING with only
    // errors — so it still gets a warm-up card, now linked to the row.
    let mut never_used = forced_lemma("es-comer", "comer", "");
    never_used.cefr_level = Some("A1".to_string());
    let mut only_errors = forced_lemma("es-beber", "beber", "пить");
    only_errors.status = STATUS_PRACTICING;
    only_errors.incorrect_uses = 2;
    let existing = vec![never_used, only_errors];
    let exercises = vec![exercise("Quiero comer y beber.")];
    let raw = vec![
        // Raw translation empty: falls back to the stored one — but
        // "comer" has none stored either, so it is still skipped.
        raw_vocabulary("comer", "comer", "VERB", None),
        // Raw pos/cefr/translation present: used verbatim.
        raw_vocabulary("beber", "beber", "VERB", Some("выпивать")),
    ];
    let items = new_word_items(&existing, &exercises, raw);
    assert_eq!(items.len(), 1);
    assert_eq!(items[0].lemma, "beber");
    assert_eq!(items[0].lemma_id.as_deref(), Some("es-beber"));
    assert_eq!(items[0].translation, "выпивать");
    assert_eq!(items[0].kind, WarmupKind::New);

    // Stored fields fill gaps in the raw item.
    let raw = vec![RawVocabularyItem {
        lemma: "beber".to_string(),
        surface: "beber".to_string(),
        pos: None,
        cefr_level: None,
        translation: None,
    }];
    let items = new_word_items(&existing, &exercises, raw);
    assert_eq!(items.len(), 1);
    assert_eq!(items[0].lemma_id.as_deref(), Some("es-beber"));
    assert_eq!(items[0].pos.as_deref(), Some("VERB"));
    assert_eq!(items[0].translation, "пить");
}

#[test]
fn new_word_items_matches_inflected_surface_not_headword() {
    // The dictionary headword "comer" never appears verbatim — only its
    // inflected surface "como" does. Matching must go through `surface`.
    let exercises = vec![exercise("Como pan cada día.")];
    let raw = vec![raw_vocabulary("comer", "como", "VERB", Some("кушать"))];
    let items = new_word_items(&[], &exercises, raw);
    assert_eq!(items.len(), 1);
    assert_eq!(items[0].lemma, "comer");
}

#[test]
fn new_word_items_falls_back_to_lemma_when_surface_missing() {
    let exercises = vec![exercise("Quiero comer pan.")];
    let raw = vec![raw_vocabulary("comer", "", "VERB", Some("кушать"))];
    let items = new_word_items(&[], &exercises, raw);
    assert_eq!(items.len(), 1);
}

#[test]
fn new_word_items_excludes_function_pos() {
    let exercises = vec![exercise("Quiero comer con ella.")];
    let raw = vec![
        raw_vocabulary("comer", "comer", "VERB", Some("кушать")),
        raw_vocabulary("con", "con", "ADP", Some("с")),
    ];
    let items = new_word_items(&[], &exercises, raw);
    assert_eq!(items.len(), 1);
    assert_eq!(items[0].lemma, "comer");
}

#[test]
fn new_word_items_tracks_discourse_marker_conjunctions() {
    // Regression: "although" (SCONJ) must be previewable as a new word,
    // same as any noun/verb — only truly grammatical POS (ADP, DET, ...)
    // are excluded.
    let exercises = vec![exercise("Aunque llueve, salgo.")];
    let raw = vec![raw_vocabulary("aunque", "aunque", "SCONJ", Some("хотя"))];
    let items = new_word_items(&[], &exercises, raw);
    assert_eq!(items.len(), 1);
    assert_eq!(items[0].lemma, "aunque");
}

#[test]
fn new_word_items_requires_translation() {
    let exercises = vec![exercise("Quiero comer pan.")];
    let raw = vec![raw_vocabulary("comer", "comer", "VERB", None)];
    assert!(new_word_items(&[], &exercises, raw).is_empty());
}

#[test]
fn new_word_items_requires_appearance_in_exercises() {
    // The LLM claims "beber" but it never made it into any sentence —
    // same anti-hallucination guard as match_warmup_items.
    let exercises = vec![exercise("Quiero comer pan.")];
    let raw = vec![raw_vocabulary("beber", "bebo", "VERB", Some("пить"))];
    assert!(new_word_items(&[], &exercises, raw).is_empty());
}

#[test]
fn new_word_items_dedups_repeated_lemmas() {
    let exercises = vec![exercise("Como pan y como fruta.")];
    let raw = vec![
        raw_vocabulary("comer", "como", "VERB", Some("кушать")),
        raw_vocabulary("comer", "como", "VERB", Some("есть (дубль)")),
    ];
    let items = new_word_items(&[], &exercises, raw);
    assert_eq!(items.len(), 1);
    assert_eq!(items[0].translation, "кушать");
}

#[test]
fn appearance_check_matches_translations_not_target_sentence() {
    // "bread" appears only in the native-language target_sentence: no
    // card. "como" appears in the expected translation: card. "fruta"
    // appears only in an acceptable alternative: card too.
    let exercises = vec![Exercise {
        target_sentence: "I eat bread.".to_string(),
        ..exercise("Como pan.")
    }];
    let mut with_acceptable = exercises.clone();
    with_acceptable[0].acceptable_translations = vec!["Yo como fruta.".to_string()];
    let raw = vec![
        raw_vocabulary("bread", "bread", "NOUN", Some("хлеб")),
        raw_vocabulary("comer", "como", "VERB", Some("кушать")),
        raw_vocabulary("fruta", "fruta", "NOUN", Some("фрукт")),
    ];
    let items = new_word_items(&[], &with_acceptable, raw);
    let lemmas: Vec<&str> = items.iter().map(|i| i.lemma.as_str()).collect();
    assert_eq!(lemmas, ["comer", "fruta"]);
}

#[test]
fn new_word_items_are_not_capped() {
    let exercises = vec![exercise("w0 w1 w2 w3 w4 w5 w6 w7 w8 w9 w10 w11.")];
    let raw: Vec<_> = (0..12)
        .map(|i| raw_vocabulary(&format!("w{i}"), &format!("w{i}"), "NOUN", Some("t")))
        .collect();
    let items = new_word_items(&[], &exercises, raw);
    assert_eq!(items.len(), 12);
}

// --- cloze_items ---

fn raw_cloze(
    lemma: &str,
    sentence: &str,
    answer: &str,
    distractors: &[&str],
) -> RawClozeItem {
    RawClozeItem {
        lemma: lemma.to_string(),
        sentence: sentence.to_string(),
        answer: answer.to_string(),
        distractors: distractors.iter().map(|s| s.to_string()).collect(),
        translation: Some("t".to_string()),
        pos: None,
        cefr_level: None,
    }
}

#[test]
fn cloze_items_excludes_lemmas_answered_correctly() {
    let mut known = forced_lemma("es-comer", "comer", "есть");
    known.correct_uses = 3;
    let existing = vec![known];
    let raw = vec![
        raw_cloze("comer", "Como pan.", "Como", &["Comes", "Comen"]),
        raw_cloze("beber", "Bebo agua.", "Bebo", &["Bebes", "Beber"]),
    ];
    let items = cloze_items(&existing, &[], raw);
    // "comer" was answered correctly before — no item; "beber" has no
    // Lemma row at all and qualifies.
    assert_eq!(items.len(), 1);
    assert_eq!(items[0].lemma, "beber");
    assert_eq!(items[0].lemma_id, None);
}

#[test]
fn cloze_items_links_existing_lemma_never_answered_correctly() {
    let mut only_errors = forced_lemma("es-comer", "comer", "есть");
    only_errors.status = STATUS_PRACTICING;
    only_errors.incorrect_uses = 2;
    only_errors.cefr_level = Some("A1".to_string());
    let raw = vec![raw_cloze("Comer", "Como pan.", "Como", &["Comes", "Comen"])];
    let items = cloze_items(&[only_errors], &[], raw);
    assert_eq!(items.len(), 1);
    assert_eq!(items[0].lemma_id.as_deref(), Some("es-comer"));
    // Stored pos/cefr fill the raw item's gaps.
    assert_eq!(items[0].pos.as_deref(), Some("VERB"));
    assert_eq!(items[0].cefr_level.as_deref(), Some("A1"));
    // The display form comes from the raw item, not the stored lemma.
    assert_eq!(items[0].lemma, "Comer");
}

#[test]
fn cloze_items_keeps_forced_lemma_with_zero_correct_uses() {
    // A forced lemma whose row is not in `existing_lemmas` still counts
    // as an existing row: kept while correct_uses == 0, dropped once it
    // has positive progress.
    let forced = vec![forced_lemma("es-comer", "comer", "есть")];
    let items = cloze_items(
        &[],
        &forced,
        vec![raw_cloze("comer", "Como pan.", "Como", &["Comes", "Comen"])],
    );
    assert_eq!(items.len(), 1);
    assert_eq!(items[0].lemma_id.as_deref(), Some("es-comer"));

    let mut practiced = forced_lemma("es-comer", "comer", "есть");
    practiced.correct_uses = 1;
    let items = cloze_items(
        &[],
        &[practiced],
        vec![raw_cloze("comer", "Como pan.", "Como", &["Comes", "Comen"])],
    );
    assert!(items.is_empty());
}

#[test]
fn cloze_items_drops_answer_absent_from_sentence() {
    // The LLM claims "comes" but the sentence says "como" — probable
    // hallucination, dropped.
    let raw = vec![raw_cloze("comer", "Como pan.", "Comes", &["Comen", "Comer"])];
    assert!(cloze_items(&[], &[], raw).is_empty());
}

#[test]
fn cloze_items_blanks_answer_case_insensitively_at_real_boundaries() {
    // Answer casing differs from the sentence; the match is normalized,
    // the replacement keeps the rest of the sentence untouched.
    let raw = vec![raw_cloze("comer", "Yo como pan cada día.", "Como", &["comes", "comen"])];
    let items = cloze_items(&[], &[], raw);
    assert_eq!(items.len(), 1);
    assert_eq!(items[0].sentence, "Yo _____ pan cada día.");
    assert_eq!(items[0].answer, "Como");
}

#[test]
fn cloze_items_options_dedup_and_count() {
    // A distractor duplicating the answer (different case) is deduped;
    // two remaining distractors give exactly 3 options.
    let raw = vec![raw_cloze(
        "comer",
        "Como pan.",
        "Como",
        &["como", "Comes", "Comen"],
    )];
    let items = cloze_items(&[], &[], raw);
    assert_eq!(items.len(), 1);
    assert_eq!(items[0].options, ["Como", "Comes", "Comen"]);

    // Fewer than 3 unique options: dropped.
    let raw = vec![raw_cloze("comer", "Como pan.", "Como", &["como"])];
    assert!(cloze_items(&[], &[], raw).is_empty());

    // More than 4 unique options: contract violation, dropped.
    let raw = vec![raw_cloze(
        "comer",
        "Como pan.",
        "Como",
        &["comes", "comen", "comer", "comed"],
    )];
    assert!(cloze_items(&[], &[], raw).is_empty());
}

#[test]
fn cloze_items_dedups_repeated_lemmas() {
    let raw = vec![
        raw_cloze("Comer", "Como pan.", "Como", &["Comes", "Comen"]),
        raw_cloze("comer", "Como fruta.", "Como", &["Comes", "Comen"]),
    ];
    let items = cloze_items(&[], &[], raw);
    assert_eq!(items.len(), 1);
    assert_eq!(items[0].sentence, "_____ pan.");
}

#[test]
fn find_form_fuzzy_merges_incomplete_feats() {
    let existing = vec![
        Form {
            id: "es-hablar--hablo".to_string(),
            lemma_id: "es-hablar".to_string(),
            surface: "hablo".to_string(),
            feats_key: "mood=ind|number=sing|person=1|tense=pres|verbform=fin".to_string(),
            ..Default::default()
        },
        Form {
            id: "es-hablar--hablo-1".to_string(),
            lemma_id: "es-hablar".to_string(),
            surface: "hablo".to_string(),
            feats_key: "mood=sub|number=sing|person=1|tense=pres|verbform=fin".to_string(),
            ..Default::default()
        },
    ];
    // Exact feats_key match wins.
    assert_eq!(
        find_form_fuzzy(
            &existing,
            "es-hablar",
            "Hablo",
            "mood=ind|number=sing|person=1|tense=pres|verbform=fin"
        ),
        Some(0)
    );
    // Incomplete feats (4 of 5 segments, a subset) merge into the
    // fuller form.
    assert_eq!(
        find_form_fuzzy(
            &existing,
            "es-hablar",
            "hablo",
            "mood=ind|number=sing|person=1|tense=pres"
        ),
        Some(0)
    );
    // Different feature sets (past vs present, similarity 0.67) stay
    // distinct forms.
    assert_eq!(
        find_form_fuzzy(
            &existing,
            "es-hablar",
            "hablo",
            "mood=ind|number=sing|person=1|tense=past|verbform=fin"
        ),
        None
    );
    // A different lemma never merges.
    assert_eq!(
        find_form_fuzzy(
            &existing,
            "es-comer",
            "hablo",
            "mood=ind|number=sing|person=1|tense=pres|verbform=fin"
        ),
        None
    );
}

#[test]
fn find_form_fuzzy_prefers_the_most_similar_and_the_last_among_equals() {
    let form = |id: &str, feats: &str| Form {
        id: id.to_string(),
        lemma_id: "es-ser".to_string(),
        surface: "es".to_string(),
        feats_key: feats.to_string(),
        ..Default::default()
    };
    let existing = vec![
        form("a", "a=1|b=1|c=1|d=1|e=1|f=1|g=1|h=1|i=1"),
        form("b", "a=1|b=1|c=1|d=1|e=1|f=1|g=1|h=1|i=1|j=1"),
        form("c", "a=1|b=1|c=1|d=1|e=1|f=1|g=1|h=1|i=1|k=1"),
    ];
    // Against "a..h|j": a has similarity 8/10, b contains it (1), c is 8/11 (below 0.8).
    assert_eq!(find_form_fuzzy(&existing, "es-ser", "ES", "a=1|b=1|c=1|d=1|e=1|f=1|g=1|h=1|j=1"), Some(1));
    // No candidate reaches 0.8.
    assert_eq!(find_form_fuzzy(&existing, "es-ser", "es", "x=1|y=1"), None);
    // An empty feats key matches the first form of the surface exactly.
    assert_eq!(find_form_fuzzy(&existing, "es-ser", "es", ""), Some(0));
}

fn status(mastery: f64, had_error: bool, practiced: bool) -> i32 {
    derive_status(mastery.to_bits(), had_error, practiced)
}

#[test]
fn derive_status_thresholds() {
    assert_eq!(status(0.0, false, false), STATUS_NEW);
    assert_eq!(status(49.9, false, false), STATUS_NEW);
    assert_eq!(status(50.0, false, false), STATUS_PRACTICING);
    assert_eq!(status(79.9, false, false), STATUS_PRACTICING);
    assert_eq!(status(80.0, false, false), STATUS_KNOWN);
    assert_eq!(status(100.0, false, false), STATUS_KNOWN);

    assert_eq!(status(34.0, false, true), STATUS_PRACTICING);
    assert_eq!(status(0.0, false, true), STATUS_PRACTICING);
}

#[test]
fn derive_status_error_caps_at_practicing() {
    assert_eq!(status(95.0, true, false), STATUS_PRACTICING);
    assert_eq!(status(60.0, true, false), STATUS_PRACTICING);
    assert_eq!(status(34.0, true, true), STATUS_PRACTICING);
    assert_eq!(status(0.0, true, true), STATUS_PRACTICING);
    assert_eq!(status(10.0, true, false), STATUS_NEW);
}

#[test]
fn derive_status_never_counts_nan_as_mastered() {
    assert_eq!(status(f64::NAN, false, false), STATUS_NEW);
    assert_eq!(status(f64::INFINITY, false, false), STATUS_KNOWN);
}

#[test]
fn vocabulary_session_score_values() {
    assert_eq!(vocabulary_session_score(true, true), 100);
    assert_eq!(vocabulary_session_score(false, true), 30);
    assert_eq!(vocabulary_session_score(true, false), 0);
    assert_eq!(vocabulary_session_score(false, false), 0);
}

fn feats_similarity(a: &str, b: &str) -> f64 {
    let (num, den) = feats_similarity_fraction(a, b);
    num as f64 / den as f64
}

#[test]
fn feats_similarity_jaccard_with_subset_shortcut() {
    assert_eq!(feats_similarity("", ""), 1.0);
    // A subset (e.g. an incomplete feats set: 4 of 5 segments) is a
    // full match.
    assert_eq!(
        feats_similarity(
            "mood=ind|number=sing|person=1|tense=pres",
            "mood=ind|number=sing|person=1|tense=pres|verbform=fin"
        ),
        1.0
    );
    // 8 of 10 union segments -> 0.8, right at the merge threshold.
    let a = "a=1|b=1|c=1|d=1|e=1|f=1|g=1|h=1|i=1";
    let b = "a=1|b=1|c=1|d=1|e=1|f=1|g=1|h=1|j=1";
    assert_eq!(feats_similarity(a, b), 0.8);
    assert_eq!(feats_similarity_fraction(a, b), (8, 10));
    // 4 of 6 union segments -> 0.667, below the threshold.
    let a = "mood=ind|number=sing|person=1|tense=pres|verbform=fin";
    let b = "mood=ind|number=sing|person=1|tense=past|verbform=fin";
    assert!((feats_similarity(a, b) - 2.0 / 3.0).abs() < 1e-9);
    // Disjoint sets -> 0.0.
    assert_eq!(feats_similarity("mood=ind", "mood=sub"), 0.0);
}

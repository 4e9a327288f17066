use open_course::modules::{
    get_module_progress, is_unit_id, new_module_id, new_unit_id, ModuleDraft, ModuleTally,
    ModuleTerm, ModuleUnit, ModuleUnitDraft, UnitProgress, MODULE_ID_PREFIX, UNIT_ID_PREFIX,
};

#[test]
fn generated_ids_carry_their_namespace_prefix() {
    assert!(new_module_id().starts_with(MODULE_ID_PREFIX));
    assert!(new_unit_id().starts_with(UNIT_ID_PREFIX));
    assert!(is_unit_id("unit_123"));
    assert!(!is_unit_id("mod_123"));
    assert!(!is_unit_id("grammar-topic-slug"));
}

#[test]
fn generated_ids_are_prefixed_uuids() {
    let id = new_unit_id();
    assert_eq!(id.len(), UNIT_ID_PREFIX.len() + 36);
    assert_eq!(id.matches('-').count(), 4);
    assert_ne!(new_module_id(), new_module_id());
}

#[test]
fn materialize_assigns_ids_order_and_metadata() {
    let draft = ModuleDraft {
        title: "At the doctor".to_string(),
        description: "Medical visits".to_string(),
        units: vec![
            ModuleUnitDraft {
                title: "Making an appointment".to_string(),
                description: String::new(),
                grammar_topic_ids: vec!["t1".to_string()],
                vocabulary: vec![ModuleTerm {
                    lemma: "cita previa".to_string(),
                    translation: "appointment".to_string(),
                    pos: Some("NOUN".to_string()),
                    cefr: Some("A2".to_string()),
                }],
                existing_id: None,
            },
            ModuleUnitDraft {
                title: "Describing symptoms".to_string(),
                description: String::new(),
                grammar_topic_ids: vec![],
                vocabulary: vec![],
                existing_id: None,
            },
        ],
    };
    let (module, units) = draft.materialize("doctor visit", "ru", "es", "2026-01-01T00:00:00Z");
    assert!(module.id.starts_with(MODULE_ID_PREFIX));
    assert_eq!(module.source_prompt, "doctor visit");
    assert_eq!(module.status, "active");
    assert_eq!(module.visibility, "private");
    assert_eq!(module.native_lang, "ru");
    assert_eq!(module.target_lang, "es");
    assert_eq!(units.len(), 2);
    assert!(units.iter().all(|u| u.id.starts_with(UNIT_ID_PREFIX)));
    assert!(units.iter().all(|u| u.module_id == module.id));
    assert_eq!(units[0].order, 0);
    assert_eq!(units[1].order, 1);
    assert_eq!(units[0].grammar_topic_ids, ["t1"]);
    assert_eq!(units[0].vocabulary.len(), 1);
    assert_eq!(units[0].vocabulary[0].lemma, "cita previa");
    assert_eq!(units[0].vocabulary[0].translation, "appointment");
    assert!(units[1].vocabulary.is_empty());
}

#[test]
fn materialize_ignores_existing_unit_ids() {
    let draft = ModuleDraft {
        title: "Shopping".to_string(),
        description: String::new(),
        units: vec![ModuleUnitDraft {
            title: "Prices".to_string(),
            description: String::new(),
            grammar_topic_ids: vec![],
            vocabulary: vec![],
            existing_id: Some("unit_kept".to_string()),
        }],
    };
    let (module, units) = draft.materialize("shop", "ru", "es", "now");
    assert_ne!(units[0].id, "unit_kept");
    assert!(units[0].id.starts_with(UNIT_ID_PREFIX));
    assert_eq!(units[0].module_id, module.id);
    assert_eq!(module.title, "Shopping");
}

fn unit(id: &str) -> ModuleUnit {
    ModuleUnit { id: id.to_string(), ..Default::default() }
}

fn practiced(topic_id: &str, score: f64) -> UnitProgress {
    UnitProgress { topic_id: topic_id.to_string(), score_bits: score.to_bits(), practiced: true }
}

/// The module's percentage: the scores averaged over every unit, rounded.
fn percent(tally: &ModuleTally) -> f64 {
    if tally.total == 0 {
        return 0.0;
    }
    let sum = tally.scores.iter().fold(0.0, |acc: f64, b| acc + f64::from_bits(*b));
    (sum / tally.total as f64).round()
}

#[test]
fn module_progress_buckets_units_by_threshold() {
    let units = vec![unit("unit_1"), unit("unit_2"), unit("unit_3"), unit("unit_4")];
    let progress = vec![
        practiced("unit_1", 85.0), // completed
        practiced("unit_2", 60.0), // in progress
        practiced("unit_3", 30.0), // weak
                                   // unit_4 has no progress row: not started
    ];
    let aggregate = get_module_progress(&units, &progress);
    assert_eq!(aggregate.total, 4);
    assert_eq!(aggregate.completed, 1);
    assert_eq!(aggregate.in_progress, 2);
    assert_eq!(aggregate.not_started, 1);
    assert_eq!(aggregate.weak, 1);
    // (85 + 60 + 30) / 4 units = 43.75 → 44 (unpracticed units score 0).
    assert_eq!(percent(&aggregate), 44.0);
}

#[test]
fn module_progress_counts_unpracticed_rows_as_not_started() {
    let units = vec![unit("unit_1")];
    let progress = vec![UnitProgress {
        topic_id: "unit_1".to_string(),
        score_bits: 40.0f64.to_bits(),
        practiced: false,
    }];
    let aggregate = get_module_progress(&units, &progress);
    assert_eq!(aggregate.not_started, 1);
    assert_eq!(aggregate.in_progress, 0);
    // The stored score still counts toward the average.
    assert_eq!(percent(&aggregate), 40.0);
}

#[test]
fn module_progress_skips_tombstoned_units() {
    let mut deleted = unit("unit_1");
    deleted.deleted_at = Some("2026-01-02T00:00:00Z".to_string());
    let units = vec![deleted, unit("unit_2")];
    let aggregate = get_module_progress(&units, &[]);
    assert_eq!(aggregate.total, 1);
    assert_eq!(aggregate.not_started, 1);
    assert_eq!(percent(&aggregate), 0.0);
}

#[test]
fn module_progress_empty_module_is_zero() {
    let aggregate = get_module_progress(&[], &[]);
    assert_eq!(aggregate, ModuleTally::default());
}

#[test]
fn module_progress_reads_the_first_row_of_a_unit() {
    let units = vec![unit("unit_1")];
    let progress = vec![practiced("unit_1", 90.0), practiced("unit_1", 10.0)];
    let aggregate = get_module_progress(&units, &progress);
    assert_eq!(aggregate.completed, 1);
    assert_eq!(aggregate.scores, vec![90.0f64.to_bits()]);
}

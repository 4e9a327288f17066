use open_course::error::AppError;
use open_course::profile::{
    active_profile, add_pair, default_batch_size, default_hint_mode, find_pair, language_pair_for,
    data_dir_plan, merge_remote_pairs, pair_id, DataDirPlan, resolve_sync_server_url, HintMode, LanguagePair, SyncConfig,
    UserPreferences, UserProfile, DEFAULT_SYNC_SERVER_URL,
};
use open_course::sync_protocol::PairInfoResponse;

fn remote_pair(pair_id: &str, native: &str, target: &str) -> PairInfoResponse {
    PairInfoResponse {
        pair_id: pair_id.to_string(),
        native_lang: native.to_string(),
        target_lang: target.to_string(),
        revision: 1,
        age: Some(30),
        self_assessed_cefr: Some("B1".to_string()),
        batch_size: 3,
        topic_count: 0,
    }
}

fn profile(native: &str, target: &str) -> UserProfile {
    UserProfile {
        native_language: native.to_string(),
        target_language: target.to_string(),
        age: None,
        self_assessed_cefr: None,
    }
}

fn test_pairs() -> Vec<LanguagePair> {
    vec![language_pair_for(profile("en", "de"))]
}

#[test]
fn merge_remote_pairs_adds_only_unknown_pairs() {
    let mut pairs = test_pairs();
    let remote = vec![
        remote_pair("en-de", "en", "de"),
        remote_pair("en-fr", "en", "fr"),
        remote_pair("en-es", "en", "es"),
    ];
    let added = merge_remote_pairs(&mut pairs, &remote);
    assert_eq!(added, vec!["en-fr".to_string(), "en-es".to_string()]);
    assert_eq!(pairs.len(), 3);
    let fr = find_pair(&pairs, "en-fr").unwrap();
    assert_eq!(fr.profile.native_language, "en");
    assert_eq!(fr.profile.target_language, "fr");
    assert_eq!(fr.profile.age, Some(30));
    assert_eq!(fr.profile.self_assessed_cefr.as_deref(), Some("B1"));
    assert_eq!(pairs[0].id, "en-de");
    assert_eq!(active_profile(&pairs, "en-de").target_language, "de");
}

#[test]
fn merge_remote_pairs_is_idempotent() {
    let mut pairs = test_pairs();
    let remote = vec![remote_pair("en-fr", "en", "fr")];
    assert_eq!(merge_remote_pairs(&mut pairs, &remote).len(), 1);
    assert!(merge_remote_pairs(&mut pairs, &remote).is_empty());
    assert_eq!(pairs.len(), 2);
}

#[test]
fn merge_remote_pairs_adds_a_repeated_id_once_and_drops_bad_ages() {
    let mut pairs = test_pairs();
    let mut odd = remote_pair("ru-es", "ru", "es");
    odd.age = Some(-4);
    let remote = vec![odd, remote_pair("ru-es", "ru", "es")];
    assert_eq!(merge_remote_pairs(&mut pairs, &remote), vec!["ru-es".to_string()]);
    assert_eq!(pairs.len(), 2);
    assert_eq!(pairs[1].profile.age, None);
}

#[test]
fn pair_ids_are_lowercased_languages() {
    assert_eq!(pair_id("Russian", "Spanish"), "russian-spanish");
    let pair = language_pair_for(profile("EN", "De"));
    assert_eq!(pair.id, "en-de");
}

#[test]
fn add_pair_refuses_an_existing_pair() {
    let mut pairs = test_pairs();
    assert_eq!(add_pair(&mut pairs, profile("en", "fr")), Ok("en-fr".to_string()));
    assert_eq!(pairs.len(), 2);
    let err = add_pair(&mut pairs, profile("EN", "FR")).unwrap_err();
    assert_eq!(err, AppError::Config("Language pair en-fr already exists".to_string()));
    assert_eq!(err.to_string(), "Config error: Language pair en-fr already exists");
    assert_eq!(pairs.len(), 2);
}

#[test]
fn active_profile_falls_back_to_the_first_pair() {
    let mut pairs = test_pairs();
    add_pair(&mut pairs, profile("en", "fr")).unwrap();
    assert_eq!(active_profile(&pairs, "en-fr").target_language, "fr");
    assert_eq!(active_profile(&pairs, "xx-yy").target_language, "de");
    assert!(find_pair(&pairs, "xx-yy").is_none());
}

#[test]
fn preference_defaults() {
    let prefs = UserPreferences::default();
    assert_eq!(prefs.batch_size, 3);
    assert_eq!(prefs.hint_mode, HintMode::Auto);
    assert_eq!(default_batch_size(), 3);
    assert_eq!(default_hint_mode(), HintMode::Auto);
}

#[test]
fn sync_server_url_prefers_environment_then_config() {
    let configured = SyncConfig { server_url: Some("https://staging".to_string()), ..Default::default() };
    assert_eq!(resolve_sync_server_url(Some("http://localhost"), Some(&configured)), "http://localhost");
    assert_eq!(resolve_sync_server_url(Some(""), Some(&configured)), "https://staging");
    assert_eq!(resolve_sync_server_url(None, Some(&SyncConfig::default())), DEFAULT_SYNC_SERVER_URL);
    assert_eq!(resolve_sync_server_url(None, None), "https://api.open-course.eu");
}

#[test]
fn data_dir_plan_prefers_home_and_moves_a_local_install() {
    assert_eq!(data_dir_plan(false, false, false, true), DataDirPlan::Current);
    assert_eq!(data_dir_plan(true, true, false, true), DataDirPlan::Home);
    assert_eq!(data_dir_plan(true, false, false, true), DataDirPlan::MigrateToHome);
    assert_eq!(data_dir_plan(true, false, true, true), DataDirPlan::Home);
    assert_eq!(data_dir_plan(true, false, false, false), DataDirPlan::Home);
}

#[test]
fn active_pair_index_falls_back_to_the_first_pair() {
    let pairs = vec![
        language_pair_for(UserProfile {
            native_language: "en".to_string(),
            target_language: "de".to_string(),
            age: None,
            self_assessed_cefr: None,
        }),
        language_pair_for(UserProfile {
            native_language: "en".to_string(),
            target_language: "fr".to_string(),
            age: None,
            self_assessed_cefr: None,
        }),
    ];
    assert_eq!(open_course::profile::active_pair_index(&pairs, "en-fr"), 1);
    assert_eq!(open_course::profile::active_pair_index(&pairs, "xx-yy"), 0);
}

#[test]
fn data_paths_are_laid_out_under_the_data_directory() {
    assert_eq!(open_course::profile::data_dir_components(), vec![".open-course-cli"]);
    assert_eq!(open_course::profile::config_path_components(), vec![".open-course-cli", "config.json"]);
    assert_eq!(open_course::profile::pair_db_components("ru-en"), vec![".open-course-cli", "pairs", "ru-en", "db"]);
}

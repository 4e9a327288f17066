use open_course::ui::screens::View;
use open_course::update::{
    install_command, is_newer, release_tag_version, update_notice, version_from_location,
    UpdateNotice, INSTALL_COMMAND,
};

#[test]
fn newer_when_major_increases() {
    assert!(is_newer("0.1.0", "0.2.0"));
}

#[test]
fn newer_when_minor_increases() {
    assert!(is_newer("0.1.0", "0.1.1"));
}

#[test]
fn newer_when_patch_increases() {
    assert!(is_newer("0.1.0", "0.1.1"));
}

#[test]
fn not_newer_when_equal() {
    assert!(!is_newer("0.1.0", "0.1.0"));
}

#[test]
fn not_newer_when_older() {
    assert!(!is_newer("0.2.0", "0.1.0"));
}

#[test]
fn strips_leading_v() {
    assert!(is_newer("0.1.0", "v0.2.0"));
    assert!(is_newer("v0.1.0", "0.2.0"));
}

#[test]
fn invalid_version_is_not_newer() {
    assert!(!is_newer("0.1.0", "not-a-version"));
    assert!(!is_newer("not-a-version", "0.2.0"));
}

#[test]
fn parses_version_from_redirect_location() {
    assert_eq!(
        version_from_location("https://github.com/scriptology/open-course-cli/releases/tag/v0.5.3"),
        Some("0.5.3".to_string())
    );
}

#[test]
fn parses_version_without_v_prefix() {
    assert_eq!(version_from_location("/releases/tag/0.5.3"), Some("0.5.3".to_string()));
}

#[test]
fn rejects_location_without_tag() {
    assert_eq!(version_from_location("https://github.com/"), None);
    assert_eq!(version_from_location(""), None);
}

#[test]
fn major_version_dominates_minor_and_patch() {
    assert!(is_newer("1.9.9", "2.0.0"));
    assert!(!is_newer("2.0.0", "1.9.9"));
}

#[test]
fn newer_is_never_symmetric() {
    for (a, b) in [("0.1.0", "0.2.0"), ("1.2.3", "1.2.4"), ("3.0.0", "2.9.9"), ("1.0.0", "1.0.0")] {
        assert!(!(is_newer(a, b) && is_newer(b, a)));
    }
}

#[test]
fn versions_with_extra_or_missing_parts_are_not_newer() {
    assert!(!is_newer("0.1.0", "0.2"));
    assert!(!is_newer("0.1.0", "0.2.0.1"));
    assert!(!is_newer("0.1.0", "0.-2.0"));
}

#[test]
fn install_command_is_the_installer_pipeline() {
    assert_eq!(install_command(), INSTALL_COMMAND);
    assert!(install_command().ends_with("| sh"));
}

#[test]
fn release_tags_lose_their_leading_v() {
    assert_eq!(release_tag_version(Some("v0.5.3")), Some("0.5.3".to_string()));
    assert_eq!(release_tag_version(Some("vv1.0.0")), Some("1.0.0".to_string()));
    assert_eq!(release_tag_version(Some("v")), None);
    assert_eq!(release_tag_version(Some("")), None);
    assert_eq!(release_tag_version(None), None);
}

#[test]
fn update_prompt_opens_only_on_top_level_screens() {
    assert_eq!(update_notice("0.1.0", None, View::Dashboard), UpdateNotice::Nothing);
    assert_eq!(update_notice("0.1.0", Some("0.1.0"), View::Dashboard), UpdateNotice::Nothing);
    assert_eq!(update_notice("0.1.0", Some("v0.2.0"), View::Dashboard), UpdateNotice::Prompt);
    assert_eq!(update_notice("0.1.0", Some("0.2.0"), View::Onboarding), UpdateNotice::Prompt);
    assert_eq!(update_notice("0.1.0", Some("0.2.0"), View::Session), UpdateNotice::Badge);
    assert_eq!(update_notice("0.1.0", Some("garbage"), View::Dashboard), UpdateNotice::Nothing);
}

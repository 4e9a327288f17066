use open_course::sync_protocol::CurriculumPayload;
use open_course::ui::account::{
    account_activation, bind_dialog_key, failure_report, record_login, status_after_expiry,
    status_after_token_probe, AccountActivation, BindOutcome, DialogKey, FailureReport,
    ProgressChoice,
};
use open_course::ui::{AccountState, BindDialog, BindDialogStep, LoginInfo, LoginStatus, SyncFailure};

fn dialog(step: BindDialogStep, has_local_progress: bool, selected: usize) -> Option<BindDialog> {
    Some(BindDialog {
        step,
        payload: CurriculumPayload { revision: 4, version: 1, topics: vec![] },
        has_local_progress,
        selected,
    })
}

#[test]
fn enter_on_account_rows() {
    let mut account = AccountState::default();
    assert_eq!(account_activation(&account, 0), AccountActivation::SignIn);
    account.status = LoginStatus::LoggedIn;
    assert_eq!(account_activation(&account, 0), AccountActivation::ManualSync);
    assert_eq!(account_activation(&account, 1), AccountActivation::ToggleSync);
    assert_eq!(account_activation(&account, 2), AccountActivation::SignOut);
    assert_eq!(account_activation(&account, 3), AccountActivation::Nothing);
    account.syncing = true;
    assert_eq!(account_activation(&account, 0), AccountActivation::Nothing);
    account.syncing = false;
    account.status = LoginStatus::WaitingConfirmation;
    assert_eq!(account_activation(&account, 0), AccountActivation::Nothing);
}

#[test]
fn login_state_follows_token_and_expiry() {
    assert_eq!(status_after_token_probe(LoginStatus::LoggedOut, true), LoginStatus::LoggedIn);
    assert_eq!(status_after_token_probe(LoginStatus::LoggedIn, false), LoginStatus::LoggedOut);
    assert_eq!(status_after_token_probe(LoginStatus::Expired, true), LoginStatus::Expired);
    assert_eq!(status_after_expiry(LoginStatus::WaitingConfirmation), LoginStatus::Expired);
    assert_eq!(status_after_expiry(LoginStatus::LoggedIn), LoginStatus::LoggedIn);
    let mut account = AccountState { relogin_required: true, ..Default::default() };
    record_login(
        &mut account,
        LoginInfo { email: Some("a@b.c".to_string()), device_id: "d1".to_string(), subscription: None },
    );
    assert_eq!(account.status, LoginStatus::LoggedIn);
    assert_eq!(account.email.as_deref(), Some("a@b.c"));
    assert_eq!(account.device_id.as_deref(), Some("d1"));
    assert!(!account.relogin_required);
}

#[test]
fn failures_are_reported_by_kind() {
    assert_eq!(failure_report(&SyncFailure::unauthorized()), FailureReport::ReloginRequired);
    assert_eq!(failure_report(&SyncFailure::conflict()), FailureReport::Conflict);
    assert_eq!(failure_report(&SyncFailure::other("x".to_string())), FailureReport::Failed);
}

#[test]
fn conflict_dialog_keys() {
    let mut d = dialog(BindDialogStep::Curriculum, true, 0);
    assert!(matches!(bind_dialog_key(&mut d, DialogKey::Up), BindOutcome::Stay));
    assert_eq!(d.as_ref().unwrap().selected, 0);
    bind_dialog_key(&mut d, DialogKey::Down);
    bind_dialog_key(&mut d, DialogKey::Down);
    bind_dialog_key(&mut d, DialogKey::Down);
    assert_eq!(d.as_ref().unwrap().selected, 2);
    bind_dialog_key(&mut d, DialogKey::Up);
    bind_dialog_key(&mut d, DialogKey::Up);
    // Adopting with local progress asks about the progress first.
    assert!(matches!(bind_dialog_key(&mut d, DialogKey::Enter), BindOutcome::Stay));
    assert_eq!(d.as_ref().unwrap().step, BindDialogStep::Progress);
    bind_dialog_key(&mut d, DialogKey::Down);
    match bind_dialog_key(&mut d, DialogKey::Enter) {
        BindOutcome::Adopt(p, choice) => {
            assert_eq!(p.revision, 4);
            assert_eq!(choice, ProgressChoice::StartFromCloud);
        }
        _ => panic!("expected an adoption"),
    }
    assert!(d.is_none());

    let mut d = dialog(BindDialogStep::Curriculum, false, 0);
    assert!(matches!(
        bind_dialog_key(&mut d, DialogKey::Enter),
        BindOutcome::Adopt(_, ProgressChoice::Merge)
    ));
    let mut d = dialog(BindDialogStep::Curriculum, false, 1);
    assert!(matches!(bind_dialog_key(&mut d, DialogKey::Enter), BindOutcome::Replace(_)));
    let mut d = dialog(BindDialogStep::Curriculum, false, 2);
    assert!(matches!(bind_dialog_key(&mut d, DialogKey::Enter), BindOutcome::Stay));
    assert!(d.is_none());
    let mut d = dialog(BindDialogStep::Progress, true, 1);
    assert!(matches!(bind_dialog_key(&mut d, DialogKey::Other), BindOutcome::Stay));
    assert!(d.is_some());
    assert!(matches!(bind_dialog_key(&mut d, DialogKey::Esc), BindOutcome::Stay));
    assert!(d.is_none());
}

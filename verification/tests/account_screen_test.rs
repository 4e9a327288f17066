use open_course::curriculum::Topic;
use open_course::profile::SyncConfig;
use open_course::sync_protocol::{CurriculumPayload, DeviceCodeResponse, MeResponse};
use open_course::text::replace_text;
use open_course::ui::account::{
    account_body, bind_dialog_key, bind_dialog_text, BindOutcome, DialogKey, ProgressChoice, SettingsLabels,
};
use open_course::ui::settings::{next_field, prev_field};
use open_course::ui::action_count;
use open_course::ui::account_messages::{
    apply_account_message, apply_sync_status, open_bind_dialog, sign_out_state, AccountMessage,
    BindScenario, FollowUpAction, SyncKind,
};
use open_course::ui::help::CommonLabels;
use open_course::ui::style::{StyledLine, ThemeColor};
use open_course::ui::{
    AccountState, BindDialog, BindDialogStep, LoginInfo, LoginStatus, ReportAction, SyncFailure, SyncReport,
};

fn labels() -> SettingsLabels {
    SettingsLabels {
        account_sign_in: "Sign in",
        account_sign_in_retry: "Sign in again",
        account_not_logged_in: "Not signed in",
        account_starting: "Starting",
        account_code_label: "Code:",
        account_verification_label: "Open:",
        account_waiting: "Waiting",
        account_expired: "Expired",
        account_logging_in: "Logging in",
        account_email_label: "Email",
        account_device_label: "Device",
        account_subscription_label: "Plan",
        account_unavailable: "unavailable",
        account_last_sync_label: "Last sync",
        account_never_synced: "never",
        account_pending_label: "Pending",
        account_relogin_required: "Sign in again to sync",
        account_syncing: "Syncing…",
        account_sync_now: "Sync now",
        account_sync_toggle_label: "Sync",
        account_sync_on: "on",
        account_sync_off: "off",
        account_sign_out: "Sign out",
        account_conflict_title: "Conflict",
        account_conflict_topics: "The cloud has {count} topics",
        account_conflict_adopt: "Adopt",
        account_conflict_replace: "Replace",
        account_conflict_cancel: "Cancel",
        account_progress_merge_title: "Progress",
        account_progress_merge_merge: "Merge",
        account_progress_merge_cloud: "Start from cloud",
        account_sync_done: "Synced (revision {rev})",
        account_adopt_done: "Adopted {count} topics",
        account_replace_done: "Replaced with {count} topics (revision {rev})",
        account_sync_conflict: "The cloud curriculum differs",
        account_sync_conflict_toast: "Conflict!",
        account_sync_failed: "Sync failed",
    }
}

fn common() -> CommonLabels {
    CommonLabels {
        help: "help",
        group_navigation: "",
        group_actions: "",
        group_exit: "",
        clear_topic_selection: "",
        confirm: "confirm",
        reset: "",
        delete: "",
        cancel: "",
        start_practice: "",
        all_topics: "",
        view: "",
        back: "back",
        write_your_answer: "",
        new_topic: "",
        repeat: "",
        docs: "",
        dashboard: "",
        continue_label: "",
        retry: "",
        skip: "",
        back_to_model_list: "",
        navigate: "navigate",
        open: "",
        action: "",
        select: "",
        move_caret: "",
        edit: "",
        save: "",
        next: "next",
        manual: "",
        enter_manually: "",
        select_provider: "",
        select_level: "",
        select_batch_size: "",
        model_id: "",
        select_model: "",
        previous_step: "",
        quit: "",
        install_update: "",
        skip_continue: "",
    }
}

fn texts(line: &StyledLine) -> Vec<&str> {
    line.spans.iter().map(|s| s.text.as_str()).collect()
}

fn payload(topics: usize) -> CurriculumPayload {
    CurriculumPayload { revision: 7, version: 1, topics: vec![Topic::default(); topics] }
}

#[test]
fn replace_text_replaces_every_occurrence_from_the_left() {
    assert_eq!(replace_text("a {n} b {n}", "{n}", "1"), "a 1 b 1");
    assert_eq!(replace_text("aaa", "aa", "b"), "ba");
    assert_eq!(replace_text("nothing", "{n}", "1"), "nothing");
}

#[test]
fn logged_out_body_offers_sign_in() {
    let account = AccountState::default();
    let body = account_body(&account, 0, &labels());
    let lines: Vec<Vec<&str>> = body.iter().map(texts).collect();
    assert_eq!(lines, vec![vec!["> Sign in"], vec![""], vec!["Not signed in"]]);
    assert_eq!(body[0].spans[0].style.fg, Some(ThemeColor::Green));
    assert!(body[0].spans[0].style.bold);
}

#[test]
fn logged_in_body_lists_details_then_actions_and_messages() {
    let account = AccountState {
        status: LoginStatus::LoggedIn,
        email: Some("a@b.c".to_string()),
        outbox_len: Some(12),
        sync_enabled: true,
        error: Some("bad\nworse".to_string()),
        notice: Some("done".to_string()),
        ..Default::default()
    };
    let body = account_body(&account, 1, &labels());
    let lines: Vec<Vec<&str>> = body.iter().map(texts).collect();
    assert_eq!(
        lines,
        vec![
            vec!["Email: ", "a@b.c"],
            vec!["Device: ", "—"],
            vec!["Plan: ", "unavailable"],
            vec!["Last sync: ", "never"],
            vec!["Pending: ", "12"],
            vec![""],
            vec!["  Sync now"],
            vec!["> Sync: on"],
            vec!["  Sign out"],
            vec![""],
            vec!["bad"],
            vec!["worse"],
            vec![""],
            vec!["done"],
        ]
    );
    assert_eq!(body[10].spans[0].style.fg, Some(ThemeColor::Red));
    assert_eq!(body[13].spans[0].style.fg, Some(ThemeColor::Yellow));
}

#[test]
fn conflict_dialog_text_counts_the_cloud_topics() {
    let d = BindDialog { step: BindDialogStep::Curriculum, payload: payload(3), has_local_progress: false, selected: 1 };
    let t = bind_dialog_text(&d, &labels(), &common());
    assert_eq!(t.title, "Conflict");
    let lines: Vec<Vec<&str>> = t.lines.iter().map(texts).collect();
    assert_eq!(
        lines,
        vec![
            vec!["The cloud has 3 topics"],
            vec![""],
            vec!["  ", "Adopt"],
            vec!["> ", "Replace"],
            vec!["  ", "Cancel"],
        ]
    );
    assert_eq!(texts(&t.footer), vec!["↑/↓ navigate | Enter confirm | Esc back"]);
    let d = BindDialog { step: BindDialogStep::Progress, selected: 0, ..d };
    let t = bind_dialog_text(&d, &labels(), &common());
    assert_eq!(t.title, "Progress");
    let lines: Vec<Vec<&str>> = t.lines.iter().map(texts).collect();
    assert_eq!(lines, vec![vec!["> ", "Merge"], vec!["  ", "Start from cloud"], vec!["  ", "Cancel"]]);
}

fn apply(account: &mut AccountState, sync: &mut Option<SyncConfig>, msg: AccountMessage) -> (usize, open_course::ui::account_messages::AccountFollowUp) {
    let mut field = 2;
    let r = apply_account_message(account, sync, &mut field, msg, "https://default", true, true, &labels());
    (field, r)
}

#[test]
fn login_is_stored_in_the_section_and_the_settings() {
    let mut account = AccountState { relogin_required: true, ..Default::default() };
    let mut sync = None;
    let info = LoginInfo { email: Some("a@b.c".to_string()), device_id: "d1".to_string(), subscription: Some("pro".to_string()) };
    let (field, r) = apply(&mut account, &mut sync, AccountMessage::LoginFinished(Ok(info)));
    assert_eq!(field, 0);
    assert_eq!(account.status, LoginStatus::LoggedIn);
    assert_eq!(account.subscription.as_deref(), Some("pro"));
    assert!(!account.relogin_required);
    assert_eq!(
        sync,
        Some(SyncConfig {
            server_url: Some("https://default".to_string()),
            account_email: Some("a@b.c".to_string()),
            device_id: Some("d1".to_string()),
        })
    );
    assert!(matches!(r.action, FollowUpAction::LoginRecorded { save_config: true, start_sync_all: true }));
    assert!(!r.finish_run);
    // A configured server address stays.
    let mut sync = Some(SyncConfig { server_url: Some("https://mine".to_string()), ..Default::default() });
    let info = LoginInfo { email: None, device_id: "d2".to_string(), subscription: None };
    apply(&mut account, &mut sync, AccountMessage::LoginFinished(Ok(info)));
    assert_eq!(sync.unwrap().server_url.as_deref(), Some("https://mine"));
}

#[test]
fn failed_login_and_device_flow() {
    let mut account = AccountState::default();
    let mut sync = None;
    let device = DeviceCodeResponse {
        device_code: "dc".to_string(),
        user_code: "ABCD".to_string(),
        verification_url: "https://v".to_string(),
        expires_in: 600,
        interval: 5,
    };
    let (_, r) = apply(&mut account, &mut sync, AccountMessage::DeviceFlowStarted(Ok(device)));
    assert_eq!(account.status, LoginStatus::WaitingConfirmation);
    assert_eq!(account.user_code.as_deref(), Some("ABCD"));
    assert!(matches!(r.action, FollowUpAction::PollDeviceCode(ref d) if d.device_code == "dc"));
    apply(&mut account, &mut sync, AccountMessage::DeviceFlowExpired);
    assert_eq!(account.status, LoginStatus::Expired);
    apply(&mut account, &mut sync, AccountMessage::LoginFinished(Err("denied".to_string())));
    assert_eq!(account.status, LoginStatus::LoggedOut);
    assert_eq!(account.error.as_deref(), Some("denied"));
    assert_eq!(sync, None);
}

#[test]
fn finished_syncs_report_revision_and_counts() {
    let mut account = AccountState { syncing: true, ..Default::default() };
    let mut sync = None;
    let report = SyncReport { revision: 42, action: ReportAction::Sync, topics: None };
    let (_, r) = apply(&mut account, &mut sync, AccountMessage::SyncFinished(Ok(report)));
    assert!(!account.syncing);
    assert_eq!(account.notice.as_deref(), Some("Synced (revision 42)"));
    assert_eq!(r.toast.as_deref(), Some("Synced (revision 42)"));
    assert!(matches!(r.action, FollowUpAction::RefreshStatus { keep_enabled: false }));
    assert!(r.finish_run);
    let report = SyncReport { revision: -3, action: ReportAction::Replace, topics: Some(5) };
    let (_, r) = apply(&mut account, &mut sync, AccountMessage::SyncFinished(Ok(report)));
    assert_eq!(account.notice.as_deref(), Some("Replaced with 5 topics (revision -3)"));
    assert!(matches!(r.action, FollowUpAction::RefreshStatus { keep_enabled: true }));
    let report = SyncReport { revision: 1, action: ReportAction::Adopt, topics: None };
    apply(&mut account, &mut sync, AccountMessage::SyncFinished(Ok(report)));
    assert_eq!(account.notice.as_deref(), Some("Adopted 0 topics"));
}

#[test]
fn failed_syncs_are_reported_by_kind() {
    let mut sync = None;
    let mut account = AccountState { syncing: true, ..Default::default() };
    let (_, r) = apply(&mut account, &mut sync, AccountMessage::SyncFinished(Err(SyncFailure::unauthorized())));
    assert!(account.relogin_required);
    assert_eq!(account.notice.as_deref(), Some("Sign in again to sync"));
    assert!(r.toast.is_none());
    let mut account = AccountState::default();
    let (_, r) = apply(&mut account, &mut sync, AccountMessage::SyncFinished(Err(SyncFailure::conflict())));
    assert_eq!(account.notice.as_deref(), Some("The cloud curriculum differs"));
    assert_eq!(r.toast.as_deref(), Some("Conflict!"));
    let mut account = AccountState::default();
    apply(&mut account, &mut sync, AccountMessage::SyncFinished(Err(SyncFailure::other("offline".to_string()))));
    assert_eq!(account.error.as_deref(), Some("Sync failed: offline"));
    // A refused pull at start only asks to sign in again.
    let mut account = AccountState::default();
    let (_, r) = apply(&mut account, &mut sync, AccountMessage::PullOnStartFinished(Err(SyncFailure::unauthorized())));
    assert!(account.relogin_required);
    assert!(account.notice.is_none());
    assert!(r.finish_run);
}

#[test]
fn bind_scenarios_turn_sync_on_or_open_the_dialog() {
    let mut sync = None;
    let mut account = AccountState { notice: Some("old".to_string()), ..Default::default() };
    let (_, r) = apply(&mut account, &mut sync, AccountMessage::BindScenarioLoaded(Ok(BindScenario::FreshCloud)));
    assert!(account.sync_enabled && account.syncing && account.notice.is_none());
    assert!(matches!(r.action, FollowUpAction::EnableAndRun(SyncKind::PullOnly)));
    let mut account = AccountState::default();
    let (_, r) = apply(&mut account, &mut sync, AccountMessage::BindScenarioLoaded(Ok(BindScenario::Conflict(payload(2)))));
    assert!(!account.sync_enabled);
    assert!(matches!(r.action, FollowUpAction::OpenBindDialog(ref p) if p.topics.len() == 2));
    let (_, r) = apply(&mut account, &mut sync, AccountMessage::CurriculumConflict(payload(1)));
    assert_eq!(r.toast.as_deref(), Some("Conflict!"));
    assert!(r.finish_run);
    open_bind_dialog(&mut account, payload(1), false, true);
    let d = account.bind_dialog.as_ref().unwrap();
    assert_eq!(d.step, BindDialogStep::Curriculum);
    assert!(d.has_local_progress);
    assert_eq!(d.selected, 0);
}

#[test]
fn subscription_and_status_refresh() {
    let mut sync = None;
    let mut account = AccountState::default();
    apply(
        &mut account,
        &mut sync,
        AccountMessage::MeFetched(Some(MeResponse { email: "a@b.c".to_string(), subscription_status: "active".to_string() })),
    );
    assert_eq!(account.subscription.as_deref(), Some("active"));
    apply(&mut account, &mut sync, AccountMessage::MeFetched(None));
    assert_eq!(account.subscription, None);
    apply_sync_status(&mut account, Some(3), Some("yesterday".to_string()), false, true);
    assert!(account.sync_enabled);
    assert_eq!(account.outbox_len, Some(3));
    apply_sync_status(&mut account, None, None, false, false);
    assert!(!account.sync_enabled);
    let (_, r) = apply(&mut account, &mut sync, AccountMessage::SchedulerIdle);
    assert!(r.finish_run && matches!(r.action, FollowUpAction::Nothing));
}

#[test]
fn signing_out_forgets_the_account() {
    let mut account = AccountState {
        status: LoginStatus::LoggedIn,
        email: Some("a@b.c".to_string()),
        device_id: Some("d".to_string()),
        relogin_required: true,
        sync_enabled: true,
        ..Default::default()
    };
    let mut sync = Some(SyncConfig {
        server_url: Some("https://s".to_string()),
        account_email: Some("a@b.c".to_string()),
        device_id: Some("d".to_string()),
    });
    let mut field = 2;
    sign_out_state(&mut account, &mut sync, &mut field);
    assert_eq!(account.status, LoginStatus::LoggedOut);
    assert_eq!(account.email, None);
    assert!(!account.relogin_required);
    assert!(account.sync_enabled);
    assert_eq!(sync, Some(SyncConfig { server_url: Some("https://s".to_string()), ..Default::default() }));
    assert_eq!(field, 0);
}

fn conflict_payload() -> CurriculumPayload {
    CurriculumPayload { revision: 7, version: 1, topics: vec![] }
}

#[test]
fn account_refresh_sets_login_status_from_token_presence() {
    let mut account = AccountState::default();
    let mut sync = None;
    apply(&mut account, &mut sync, AccountMessage::AccountRefreshed { has_token: true });
    assert_eq!(account.status, LoginStatus::LoggedIn);
    apply(&mut account, &mut sync, AccountMessage::AccountRefreshed { has_token: false });
    assert_eq!(account.status, LoginStatus::LoggedOut);
}

#[test]
fn login_finished_stores_account_in_config_and_stays_opt_in() {
    let mut account = AccountState::default();
    let mut sync = Some(SyncConfig::default());
    let info = LoginInfo {
        email: Some("user@example.test".to_string()),
        device_id: "dev-1".to_string(),
        subscription: Some("active".to_string()),
    };
    let (field, _) = apply(&mut account, &mut sync, AccountMessage::LoginFinished(Ok(info)));
    assert_eq!(account.status, LoginStatus::LoggedIn);
    assert_eq!(field, 0, "login resets the selector to the first action row");
    let sync = sync.unwrap();
    assert_eq!(sync.account_email.as_deref(), Some("user@example.test"));
    assert_eq!(sync.device_id.as_deref(), Some("dev-1"));
    assert!(sync.server_url.is_some(), "server url is recorded for visibility");
    assert!(!account.sync_enabled);
}

#[test]
fn sync_failure_unauthorized_marks_relogin_required() {
    let mut account = AccountState { status: LoginStatus::LoggedIn, syncing: true, ..Default::default() };
    let mut sync = None;
    apply(
        &mut account,
        &mut sync,
        AccountMessage::SyncFinished(Err(SyncFailure { message: String::new(), unauthorized: true, conflict: false })),
    );
    assert!(account.relogin_required);
    assert!(!account.syncing);
    assert!(account.notice.is_some());
}

#[test]
fn bind_conflict_opens_dialog_and_cancel_keeps_sync_disabled() {
    let mut account = AccountState::default();
    let mut sync = None;
    let (_, r) = apply(
        &mut account,
        &mut sync,
        AccountMessage::BindScenarioLoaded(Ok(BindScenario::Conflict(conflict_payload()))),
    );
    match r.action {
        FollowUpAction::OpenBindDialog(payload) => open_bind_dialog(&mut account, payload, false, false),
        _ => panic!("a conflict opens the dialog"),
    }
    assert_eq!(account.bind_dialog.as_ref().unwrap().step, BindDialogStep::Curriculum);
    assert!(!account.sync_enabled, "sync stays disabled until the conflict is resolved");
    assert!(matches!(bind_dialog_key(&mut account.bind_dialog, DialogKey::Esc), BindOutcome::Stay));
    assert!(account.bind_dialog.is_none());
    assert!(!account.sync_enabled);
}

#[test]
fn bind_dialog_adopt_with_local_progress_asks_merge_question() {
    let mut account = AccountState::default();
    open_bind_dialog(&mut account, conflict_payload(), true, false);
    assert!(account.bind_dialog.as_ref().unwrap().has_local_progress);
    assert!(matches!(bind_dialog_key(&mut account.bind_dialog, DialogKey::Enter), BindOutcome::Stay));
    assert_eq!(account.bind_dialog.as_ref().unwrap().step, BindDialogStep::Progress);
    bind_dialog_key(&mut account.bind_dialog, DialogKey::Esc);
    assert!(account.bind_dialog.is_none());
    assert!(!account.sync_enabled);
}

#[test]
fn bind_dialog_adopt_without_progress_executes_immediately() {
    let mut account = AccountState::default();
    open_bind_dialog(&mut account, conflict_payload(), false, false);
    let outcome = bind_dialog_key(&mut account.bind_dialog, DialogKey::Enter);
    assert!(account.bind_dialog.is_none(), "adopt starts right away without local progress");
    assert!(matches!(outcome, BindOutcome::Adopt(_, ProgressChoice::Merge)));
}

#[test]
fn bind_dialog_renders_options() {
    let mut account = AccountState::default();
    open_bind_dialog(&mut account, conflict_payload(), false, false);
    let t = bind_dialog_text(account.bind_dialog.as_ref().unwrap(), &labels(), &common());
    let all: Vec<String> = t.lines.iter().map(|l| texts(l).concat()).collect();
    assert!(all.iter().any(|l| l.contains("Adopt")));
    assert!(all.iter().any(|l| l.contains("Replace")));
    assert!(all.iter().any(|l| l.contains("Cancel")));
}

#[test]
fn sync_finished_adopt_report_enables_sync_and_shows_notice() {
    let mut account = AccountState { syncing: true, ..Default::default() };
    let mut sync = None;
    let report = SyncReport { revision: 5, action: ReportAction::Adopt, topics: Some(7) };
    let (_, r) = apply(&mut account, &mut sync, AccountMessage::SyncFinished(Ok(report)));
    match r.action {
        FollowUpAction::RefreshStatus { keep_enabled } => apply_sync_status(&mut account, None, None, false, keep_enabled),
        _ => panic!("a finished sync reloads the status"),
    }
    assert!(account.sync_enabled);
    assert!(!account.syncing);
    assert!(account.notice.as_deref().unwrap_or("").contains('7'));
}

#[test]
fn settings_account_selector_moves_and_wraps() {
    let account = AccountState { status: LoginStatus::LoggedIn, ..Default::default() };
    let count = action_count(&account);
    let mut field = 0;
    for expected in [1, 2, 0] {
        field = next_field(field, count);
        assert_eq!(field, expected);
    }
    field = prev_field(field, count);
    assert_eq!(field, 2);
    let body = account_body(&account, field, &labels());
    let sign_out = body.iter().find(|l| texts(l).concat().contains("Sign out")).unwrap();
    assert_eq!(sign_out.spans[0].style.fg, Some(ThemeColor::Green));
}

#[test]
fn settings_account_logged_in_renders_status_and_actions() {
    let account = AccountState {
        status: LoginStatus::LoggedIn,
        email: Some("user@example.test".to_string()),
        device_id: Some("dev-1".to_string()),
        outbox_len: Some(3),
        subscription: Some("active".to_string()),
        ..Default::default()
    };
    let text: Vec<String> = account_body(&account, 0, &labels()).iter().map(|l| texts(l).concat()).collect();
    let all = text.join("\n");
    assert!(all.contains("user@example.test"), "email shown");
    assert!(all.contains("dev-1"), "device shown");
    assert!(all.contains("active"), "subscription shown");
    assert!(all.contains("Sync now"), "sync now action shown");
    assert!(all.contains("Sign out"), "sign out action shown");
}

#[test]
fn settings_account_error_renders_below_sign_in_action() {
    let account = AccountState { error: Some("network error: error sending request".to_string()), ..Default::default() };
    let text: Vec<String> = account_body(&account, 0, &labels()).iter().map(|l| texts(l).concat()).collect();
    let action = text.iter().position(|l| l.contains("Sign in")).expect("sign-in action shown");
    let error = text.iter().position(|l| l.contains("network error")).expect("error text shown as-is");
    assert!(action < error, "action row must come before the error text");
    assert!(!text.iter().any(|l| l.contains("Not signed in")), "neutral status is replaced by the error block");
}

#[test]
fn settings_account_logged_out_renders_sign_in() {
    let text: Vec<String> = account_body(&AccountState::default(), 0, &labels()).iter().map(|l| texts(l).concat()).collect();
    assert!(text.iter().any(|l| l.contains("Not signed in")), "logged-out state should say so");
    assert!(text.iter().any(|l| l.contains("Sign in")), "logged-out state offers sign in");
}

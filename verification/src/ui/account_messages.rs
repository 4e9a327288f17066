//! How the account section follows the messages of its background tasks:
//! the next state and what the caller has to run next.
use vstd::prelude::*;

use crate::profile::SyncConfig;
use crate::sync_protocol::{CurriculumPayload, DeviceCodeResponse, MeResponse};
use crate::text::{
    copy_str, decimal, push_decimal, push_i64_decimal, push_str, replace_text, replaced_from,
    signed_decimal,
};
use super::account::{failure_report, record_login, status_after_expiry, status_after_token_probe, FailureReport, SettingsLabels};
use super::{AccountState, BindDialog, BindDialogStep, LoginInfo, LoginStatus, ReportAction, SyncFailure, SyncReport};

verus! {

/// What the server holds for a pair that is about to be synced.
pub enum BindScenario {
    /// The cloud has nothing yet: this device's data is pushed.
    FreshLocal,
    /// This device has nothing yet: the cloud's data is pulled.
    FreshCloud,
    /// Both have a curriculum and they differ.
    Conflict(CurriculumPayload),
}

/// The kind of background sync that turning sync on starts.
#[derive(Debug, Clone, Copy, PartialEq, Eq, Structural)]
pub enum SyncKind {
    /// Push this device's data.
    AfterSession,
    /// Only pull the cloud's data.
    PullOnly,
}

/// A message of a background task of the account section.
pub enum AccountMessage {
    /// Whether a token is stored, probed when the section opens.
    AccountRefreshed { has_token: bool },
    DeviceFlowStarted(Result<DeviceCodeResponse, String>),
    DeviceFlowExpired,
    LoginFinished(Result<LoginInfo, String>),
    /// What the server holds, when sync is being turned on.
    BindScenarioLoaded(Result<BindScenario, String>),
    /// A manual sync or a push after a session ended.
    SyncFinished(Result<SyncReport, SyncFailure>),
    /// The quiet pull at start ended.
    PullOnStartFinished(Result<SyncReport, SyncFailure>),
    /// A push was refused: the cloud's curriculum differs.
    CurriculumConflict(CurriculumPayload),
    /// The account's details, when they could be fetched.
    MeFetched(Option<MeResponse>),
    /// A background task skipped its work; the scheduler is free again.
    SchedulerIdle,
}

/// What the caller runs after a message has been applied.
pub enum FollowUpAction {
    Nothing,
    /// Open the browser at the device's verification address and poll for
    /// the login.
    PollDeviceCode(DeviceCodeResponse),
    /// The login was recorded: write the configuration when there is one,
    /// and start syncing every pair when there are pairs.
    LoginRecorded { save_config: bool, start_sync_all: bool },
    /// Sync was turned on: store the toggle and start this sync.
    EnableAndRun(SyncKind),
    /// Probe the local progress and open the conflict dialog for this
    /// curriculum.
    OpenBindDialog(CurriculumPayload),
    /// Reload the sync status; sync stays on when `keep_enabled`.
    RefreshStatus { keep_enabled: bool },
}

/// The follow-up of a message: the action, a toast to show, and whether
/// the scheduler's run ends.
pub struct AccountFollowUp {
    pub action: FollowUpAction,
    pub toast: Option<String>,
    pub finish_run: bool,
}

/// An optional string as an optional text.
pub open spec fn opt_view(o: Option<String>) -> Option<Seq<char>> {
    match o {
        Some(s) => Some(s@),
        None => None,
    }
}

/// The follow-up is `action`, with a toast of `toast` and the run ending
/// when `finish_run`.
pub open spec fn follows(r: AccountFollowUp, action: FollowUpAction, toast: Option<Seq<char>>, finish_run: bool) -> bool {
    &&& r.action == action
    &&& opt_view(r.toast) == toast
    &&& r.finish_run == finish_run
}

/// The login state after the token probe.
pub open spec fn probed_status(status: LoginStatus, has_token: bool) -> LoginStatus {
    if status == LoginStatus::LoggedOut && has_token {
        LoginStatus::LoggedIn
    } else if status == LoginStatus::LoggedIn && !has_token {
        LoginStatus::LoggedOut
    } else {
        status
    }
}

/// The login state when the device code expires.
pub open spec fn expired_status(status: LoginStatus) -> LoginStatus {
    if status == LoginStatus::WaitingConfirmation {
        LoginStatus::Expired
    } else {
        status
    }
}

/// The message of a finished sync: the revision reached, the number of
/// topics adopted, or both for a replacement, put into the label.
pub open spec fn report_notice(report: SyncReport, l: SettingsLabels) -> Seq<char> {
    let rev = signed_decimal(report.revision as int);
    let count = decimal(
        match report.topics {
            Some(n) => n as nat,
            None => 0,
        },
    );
    match report.action {
        ReportAction::Sync => replaced_from(l.account_sync_done@, "{rev}"@, rev, 0),
        ReportAction::Adopt => replaced_from(l.account_adopt_done@, "{count}"@, count, 0),
        ReportAction::Replace => replaced_from(
            replaced_from(l.account_replace_done@, "{count}"@, count, 0),
            "{rev}"@,
            rev,
            0,
        ),
    }
}

/// The sync settings after a login: the account's email and device, and
/// the server address kept, or set to `default_url` when there was none.
pub open spec fn login_sync(s0: Option<SyncConfig>, info: LoginInfo, default_url: Seq<char>, s1: Option<SyncConfig>) -> bool {
    &&& s1 is Some
    &&& opt_view(s1->0.account_email) == opt_view(info.email)
    &&& opt_view(s1->0.device_id) == Some(info.device_id@)
    &&& opt_view(s1->0.server_url) == match s0 {
        Some(c) => match c.server_url {
            Some(u) => Some(u@),
            None => Some(default_url),
        },
        None => Some(default_url),
    }
}

/// The section after a failed sync (already marked as not syncing): a
/// refused login asks to sign in again, a conflict is reported as a
/// notice, anything else is shown as an error with the failure's message.
pub open spec fn failure_applied(a0: AccountState, a1: AccountState, f: SyncFailure, l: SettingsLabels) -> bool {
    if f.unauthorized {
        &&& opt_view(a1.notice) == Some(l.account_relogin_required@)
        &&& a1 == (AccountState { relogin_required: true, notice: a1.notice, ..a0 })
    } else if f.conflict {
        &&& opt_view(a1.notice) == Some(l.account_sync_conflict@)
        &&& a1 == (AccountState { notice: a1.notice, ..a0 })
    } else {
        &&& opt_view(a1.error) == Some(l.account_sync_failed@ + ": "@ + f.message@)
        &&& a1 == (AccountState { error: a1.error, ..a0 })
    }
}

/// How a message moves the section (`a0` to `a1`), the sync settings (`s0`
/// to `s1`) and the selected row (`f0` to `f1`), and what follows (`r`).
/// Only a successful login touches the settings and the selected row.
pub open spec fn account_message_step(
    a0: AccountState,
    a1: AccountState,
    s0: Option<SyncConfig>,
    s1: Option<SyncConfig>,
    f0: usize,
    f1: usize,
    msg: AccountMessage,
    default_url: Seq<char>,
    has_config: bool,
    has_pairs: bool,
    l: SettingsLabels,
    r: AccountFollowUp,
) -> bool {
    let unchanged_config = s1 == s0 && f1 == f0;
    match msg {
        AccountMessage::AccountRefreshed { has_token } => {
            &&& a1 == (AccountState { status: probed_status(a0.status, has_token), ..a0 })
            &&& unchanged_config
            &&& follows(r, FollowUpAction::Nothing, None, false)
        },
        AccountMessage::DeviceFlowStarted(Ok(device)) => {
            &&& opt_view(a1.user_code) == Some(device.user_code@)
            &&& opt_view(a1.verification_url) == Some(device.verification_url@)
            &&& a1 == (AccountState {
                status: LoginStatus::WaitingConfirmation,
                user_code: a1.user_code,
                verification_url: a1.verification_url,
                ..a0
            })
            &&& unchanged_config
            &&& follows(r, FollowUpAction::PollDeviceCode(device), None, false)
        },
        AccountMessage::DeviceFlowStarted(Err(e)) => {
            &&& a1 == (AccountState { status: LoginStatus::LoggedOut, error: Some(e), ..a0 })
            &&& unchanged_config
            &&& follows(r, FollowUpAction::Nothing, None, false)
        },
        AccountMessage::DeviceFlowExpired => {
            &&& a1 == (AccountState { status: expired_status(a0.status), ..a0 })
            &&& unchanged_config
            &&& follows(r, FollowUpAction::Nothing, None, false)
        },
        AccountMessage::LoginFinished(Ok(info)) => {
            &&& a1 == (AccountState {
                status: LoginStatus::LoggedIn,
                email: info.email,
                device_id: Some(info.device_id),
                subscription: info.subscription,
                relogin_required: false,
                ..a0
            })
            &&& if has_config {
                login_sync(s0, info, default_url, s1)
            } else {
                s1 == s0
            }
            &&& f1 == 0
            &&& follows(
                r,
                FollowUpAction::LoginRecorded { save_config: has_config, start_sync_all: has_pairs },
                None,
                false,
            )
        },
        AccountMessage::LoginFinished(Err(e)) => {
            &&& a1 == (AccountState { status: LoginStatus::LoggedOut, error: Some(e), ..a0 })
            &&& unchanged_config
            &&& follows(r, FollowUpAction::Nothing, None, false)
        },
        AccountMessage::BindScenarioLoaded(Ok(scenario)) => {
            &&& unchanged_config
            &&& match scenario {
                BindScenario::FreshLocal => {
                    &&& a1 == (AccountState { notice: None, error: None, sync_enabled: true, syncing: true, ..a0 })
                    &&& follows(r, FollowUpAction::EnableAndRun(SyncKind::AfterSession), None, false)
                },
                BindScenario::FreshCloud => {
                    &&& a1 == (AccountState { notice: None, error: None, sync_enabled: true, syncing: true, ..a0 })
                    &&& follows(r, FollowUpAction::EnableAndRun(SyncKind::PullOnly), None, false)
                },
                BindScenario::Conflict(payload) => {
                    &&& a1 == (AccountState { notice: None, error: None, ..a0 })
                    &&& follows(r, FollowUpAction::OpenBindDialog(payload), None, false)
                },
            }
        },
        AccountMessage::BindScenarioLoaded(Err(e)) => {
            &&& a1 == (AccountState { notice: None, error: Some(e), ..a0 })
            &&& unchanged_config
            &&& follows(r, FollowUpAction::Nothing, None, false)
        },
        AccountMessage::SyncFinished(Ok(report)) => {
            &&& opt_view(a1.notice) == Some(report_notice(report, l))
            &&& a1 == (AccountState { syncing: false, notice: a1.notice, ..a0 })
            &&& unchanged_config
            &&& follows(
                r,
                FollowUpAction::RefreshStatus { keep_enabled: report.action != ReportAction::Sync },
                Some(report_notice(report, l)),
                true,
            )
        },
        AccountMessage::SyncFinished(Err(failure)) => {
            &&& failure_applied(AccountState { syncing: false, ..a0 }, a1, failure, l)
            &&& unchanged_config
            &&& follows(
                r,
                FollowUpAction::Nothing,
                if !failure.unauthorized && failure.conflict {
                    Some(l.account_sync_conflict_toast@)
                } else {
                    None
                },
                true,
            )
        },
        AccountMessage::PullOnStartFinished(Ok(_)) => {
            &&& a1 == a0
            &&& unchanged_config
            &&& follows(r, FollowUpAction::RefreshStatus { keep_enabled: false }, None, true)
        },
        AccountMessage::PullOnStartFinished(Err(failure)) => {
            &&& a1 == (AccountState { relogin_required: a0.relogin_required || failure.unauthorized, ..a0 })
            &&& unchanged_config
            &&& follows(r, FollowUpAction::Nothing, None, true)
        },
        AccountMessage::CurriculumConflict(payload) => {
            &&& a1 == a0
            &&& unchanged_config
            &&& follows(r, FollowUpAction::OpenBindDialog(payload), Some(l.account_sync_conflict_toast@), true)
        },
        AccountMessage::MeFetched(me) => {
            &&& opt_view(a1.subscription) == match me {
                Some(m) => Some(m.subscription_status@),
                None => None,
            }
            &&& a1 == (AccountState { subscription: a1.subscription, ..a0 })
            &&& unchanged_config
            &&& follows(r, FollowUpAction::Nothing, None, false)
        },
        AccountMessage::SchedulerIdle => {
            &&& a1 == a0
            &&& unchanged_config
            &&& follows(r, FollowUpAction::Nothing, None, true)
        },
    }
}

fn copy_opt(o: &Option<String>) -> (r: Option<String>)
    ensures
        opt_view(r) == opt_view(*o),
{
    match o {
        Some(s) => Some(copy_str(s.as_str())),
        None => None,
    }
}

fn follow_up(action: FollowUpAction, toast: Option<String>, finish_run: bool) -> (r: AccountFollowUp)
    ensures
        r.action == action,
        r.toast == toast,
        r.finish_run == finish_run,
{
    AccountFollowUp { action, toast, finish_run }
}

fn report_notice_text(report: &SyncReport, l: &SettingsLabels) -> (r: String)
    ensures
        r@ == report_notice(*report, *l),
{
    let mut rev = String::new();
    push_i64_decimal(&mut rev, report.revision);
    let mut count = String::new();
    match report.topics {
        Some(n) => push_decimal(&mut count, n as u64),
        None => push_decimal(&mut count, 0),
    }
    proof {
        reveal_strlit("{rev}");
        reveal_strlit("{count}");
    }
    match report.action {
        ReportAction::Sync => replace_text(l.account_sync_done, "{rev}", rev.as_str()),
        ReportAction::Adopt => replace_text(l.account_adopt_done, "{count}", count.as_str()),
        ReportAction::Replace => {
            let with_count = replace_text(l.account_replace_done, "{count}", count.as_str());
            replace_text(with_count.as_str(), "{rev}", rev.as_str())
        },
    }
}

/// Applies a message of a background task to the account section, the
/// sync settings (`has_config`: whether a configuration exists to hold
/// them) and the selected row, and says what the caller runs next.
/// `default_url` is the sync server used when the settings name none;
/// `has_pairs` whether any language pair exists.
pub fn apply_account_message(
    account: &mut AccountState,
    sync: &mut Option<SyncConfig>,
    active_field: &mut usize,
    msg: AccountMessage,
    default_url: &str,
    has_config: bool,
    has_pairs: bool,
    l: &SettingsLabels,
) -> (r: AccountFollowUp)
    ensures
        account_message_step(
            *old(account),
            *final(account),
            *old(sync),
            *final(sync),
            *old(active_field),
            *final(active_field),
            msg,
            default_url@,
            has_config,
            has_pairs,
            *l,
            r,
        ),
{
    match msg {
        AccountMessage::AccountRefreshed { has_token } => {
            account.status = status_after_token_probe(account.status, has_token);
            follow_up(FollowUpAction::Nothing, None, false)
        },
        AccountMessage::DeviceFlowStarted(Ok(device)) => {
            account.user_code = Some(copy_str(device.user_code.as_str()));
            account.verification_url = Some(copy_str(device.verification_url.as_str()));
            account.status = LoginStatus::WaitingConfirmation;
            follow_up(FollowUpAction::PollDeviceCode(device), None, false)
        },
        AccountMessage::DeviceFlowStarted(Err(e)) => {
            account.status = LoginStatus::LoggedOut;
            account.error = Some(e);
            follow_up(FollowUpAction::Nothing, None, false)
        },
        AccountMessage::DeviceFlowExpired => {
            account.status = status_after_expiry(account.status);
            follow_up(FollowUpAction::Nothing, None, false)
        },
        AccountMessage::LoginFinished(Ok(info)) => {
            if has_config {
                let server_url = match sync {
                    Some(c) => match &c.server_url {
                        Some(u) => copy_str(u.as_str()),
                        None => copy_str(default_url),
                    },
                    None => copy_str(default_url),
                };
                *sync = Some(SyncConfig {
                    server_url: Some(server_url),
                    account_email: copy_opt(&info.email),
                    device_id: Some(copy_str(info.device_id.as_str())),
                });
            }
            record_login(account, info);
            *active_field = 0;
            follow_up(FollowUpAction::LoginRecorded { save_config: has_config, start_sync_all: has_pairs }, None, false)
        },
        AccountMessage::LoginFinished(Err(e)) => {
            account.status = LoginStatus::LoggedOut;
            account.error = Some(e);
            follow_up(FollowUpAction::Nothing, None, false)
        },
        AccountMessage::BindScenarioLoaded(Ok(scenario)) => {
            account.notice = None;
            account.error = None;
            match scenario {
                BindScenario::FreshLocal => {
                    account.sync_enabled = true;
                    account.syncing = true;
                    follow_up(FollowUpAction::EnableAndRun(SyncKind::AfterSession), None, false)
                },
                BindScenario::FreshCloud => {
                    account.sync_enabled = true;
                    account.syncing = true;
                    follow_up(FollowUpAction::EnableAndRun(SyncKind::PullOnly), None, false)
                },
                BindScenario::Conflict(payload) => {
                    follow_up(FollowUpAction::OpenBindDialog(payload), None, false)
                },
            }
        },
        AccountMessage::BindScenarioLoaded(Err(e)) => {
            account.notice = None;
            account.error = Some(e);
            follow_up(FollowUpAction::Nothing, None, false)
        },
        AccountMessage::SyncFinished(Ok(report)) => {
            let notice = report_notice_text(&report, l);
            let toast = copy_str(notice.as_str());
            account.syncing = false;
            account.notice = Some(notice);
            let keep_enabled = !matches!(report.action, ReportAction::Sync);
            follow_up(FollowUpAction::RefreshStatus { keep_enabled }, Some(toast), true)
        },
        AccountMessage::SyncFinished(Err(failure)) => {
            account.syncing = false;
            let toast = match failure_report(&failure) {
                FailureReport::ReloginRequired => {
                    account.relogin_required = true;
                    account.notice = Some(copy_str(l.account_relogin_required));
                    None
                },
                FailureReport::Conflict => {
                    account.notice = Some(copy_str(l.account_sync_conflict));
                    Some(copy_str(l.account_sync_conflict_toast))
                },
                FailureReport::Failed => {
                    let mut e = copy_str(l.account_sync_failed);
                    push_str(&mut e, ": ");
                    push_str(&mut e, failure.message.as_str());
                    account.error = Some(e);
                    None
                },
            };
            follow_up(FollowUpAction::Nothing, toast, true)
        },
        AccountMessage::PullOnStartFinished(Ok(_)) => {
            follow_up(FollowUpAction::RefreshStatus { keep_enabled: false }, None, true)
        },
        AccountMessage::PullOnStartFinished(Err(failure)) => {
            if failure.unauthorized {
                account.relogin_required = true;
            }
            follow_up(FollowUpAction::Nothing, None, true)
        },
        AccountMessage::CurriculumConflict(payload) => {
            follow_up(
                FollowUpAction::OpenBindDialog(payload),
                Some(copy_str(l.account_sync_conflict_toast)),
                true,
            )
        },
        AccountMessage::MeFetched(me) => {
            account.subscription = match me {
                Some(m) => Some(m.subscription_status),
                None => None,
            };
            follow_up(FollowUpAction::Nothing, None, false)
        },
        AccountMessage::SchedulerIdle => {
            follow_up(FollowUpAction::Nothing, None, true)
        },
    }
}

/// Opens the conflict dialog on the curriculum question for `payload`; the
/// progress question comes later only when there is local progress or
/// history.
pub fn open_bind_dialog(account: &mut AccountState, payload: CurriculumPayload, has_progress: bool, has_history: bool)
    ensures
        *final(account) == (AccountState {
            bind_dialog: Some(
                BindDialog {
                    step: BindDialogStep::Curriculum,
                    payload,
                    has_local_progress: has_progress || has_history,
                    selected: 0,
                },
            ),
            ..*old(account)
        }),
{
    account.bind_dialog = Some(
        BindDialog { step: BindDialogStep::Curriculum, payload, has_local_progress: has_progress || has_history, selected: 0 },
    );
}

/// Records the reloaded sync status: the pending changes, the last sync
/// and the toggle, which stays on when `keep_enabled` (after adopting or
/// replacing a curriculum).
pub fn apply_sync_status(
    account: &mut AccountState,
    outbox_len: Option<usize>,
    last_sync_at: Option<String>,
    enabled: bool,
    keep_enabled: bool,
)
    ensures
        *final(account) == (AccountState {
            outbox_len,
            last_sync_at,
            sync_enabled: enabled || keep_enabled,
            ..*old(account)
        }),
{
    account.outbox_len = outbox_len;
    account.last_sync_at = last_sync_at;
    account.sync_enabled = enabled || keep_enabled;
}

/// Signs the section out: the account's details are forgotten, here and
/// in the sync settings (whose server address stays), and the first row is
/// selected.
pub fn sign_out_state(account: &mut AccountState, sync: &mut Option<SyncConfig>, active_field: &mut usize)
    ensures
        *final(account) == (AccountState {
            status: LoginStatus::LoggedOut,
            email: None,
            device_id: None,
            subscription: None,
            relogin_required: false,
            ..*old(account)
        }),
        *final(sync) == match *old(sync) {
            Some(c) => Some(SyncConfig { account_email: None, device_id: None, ..c }),
            None => None,
        },
        *final(active_field) == 0,
{
    if let Some(c) = sync {
        c.account_email = None;
        c.device_id = None;
    }
    account.status = LoginStatus::LoggedOut;
    account.email = None;
    account.device_id = None;
    account.subscription = None;
    account.relogin_required = false;
    *active_field = 0;
}

} // verus!

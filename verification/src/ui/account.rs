//! The decisions of the account section: what a key does, how the login
//! state follows the background messages, and the conflict dialog.
use vstd::prelude::*;

use crate::sync_protocol::CurriculumPayload;
use crate::text::{copy_str, decimal, push_decimal, push_str, replace_text, replaced_from};
use super::help::CommonLabels;
use super::error_lines;
use super::style::{
    bold_style, colored, colored_style, line_view, lines_view, one_span_line, plain, plain_style,
    selected_style, two_span_line, StyledLine, TextStyle, ThemeColor,
};
use super::text_lines;
use super::{action_count, AccountState, BindDialog, BindDialogStep, LoginInfo, LoginStatus, SyncFailure};

verus! {

/// What Enter on the account section's active row starts.
#[derive(Debug, Clone, Copy, PartialEq, Eq, Structural)]
pub enum AccountActivation {
    Nothing,
    SignIn,
    ManualSync,
    ToggleSync,
    SignOut,
}

/// The action of Enter on row `active_field`: nothing while a sync runs;
/// signing in when logged out or expired; when logged in, the rows are a
/// manual sync, the sync toggle and signing out; nothing while a login is
/// in progress.
pub fn account_activation(account: &AccountState, active_field: usize) -> (r: AccountActivation)
    ensures
        r == (if account.syncing {
            AccountActivation::Nothing
        } else {
            match account.status {
                LoginStatus::LoggedOut | LoginStatus::Expired => AccountActivation::SignIn,
                LoginStatus::LoggedIn => if active_field == 0 {
                    AccountActivation::ManualSync
                } else if active_field == 1 {
                    AccountActivation::ToggleSync
                } else if active_field == 2 {
                    AccountActivation::SignOut
                } else {
                    AccountActivation::Nothing
                },
                _ => AccountActivation::Nothing,
            }
        }),
{
    if account.syncing {
        return AccountActivation::Nothing;
    }
    match account.status {
        LoginStatus::LoggedOut | LoginStatus::Expired => AccountActivation::SignIn,
        LoginStatus::LoggedIn => {
            if active_field == 0 {
                AccountActivation::ManualSync
            } else if active_field == 1 {
                AccountActivation::ToggleSync
            } else if active_field == 2 {
                AccountActivation::SignOut
            } else {
                AccountActivation::Nothing
            }
        },
        _ => AccountActivation::Nothing,
    }
}

/// The login state once the token store has been probed: a stored token
/// logs a logged-out section in, a missing one logs a logged-in section
/// out; any other state stays.
pub fn status_after_token_probe(status: LoginStatus, has_token: bool) -> (r: LoginStatus)
    ensures
        r == (if status == LoginStatus::LoggedOut && has_token {
            LoginStatus::LoggedIn
        } else if status == LoginStatus::LoggedIn && !has_token {
            LoginStatus::LoggedOut
        } else {
            status
        }),
{
    match status {
        LoginStatus::LoggedOut => {
            if has_token {
                LoginStatus::LoggedIn
            } else {
                status
            }
        },
        LoginStatus::LoggedIn => {
            if !has_token {
                LoginStatus::LoggedOut
            } else {
                status
            }
        },
        _ => status,
    }
}

/// The login state when the device code expires: only a login waiting for
/// confirmation expires.
pub fn status_after_expiry(status: LoginStatus) -> (r: LoginStatus)
    ensures
        r == (if status == LoginStatus::WaitingConfirmation {
            LoginStatus::Expired
        } else {
            status
        }),
{
    match status {
        LoginStatus::WaitingConfirmation => LoginStatus::Expired,
        _ => status,
    }
}

/// Records a successful login: logged in, with the account's email, device
/// and subscription, and no re-login pending; the rest stays.
pub fn record_login(account: &mut AccountState, info: LoginInfo)
    ensures
        final(account).status == LoginStatus::LoggedIn,
        final(account).email == info.email,
        final(account).device_id == Some(info.device_id),
        final(account).subscription == info.subscription,
        !final(account).relogin_required,
        final(account).user_code == old(account).user_code,
        final(account).verification_url == old(account).verification_url,
        final(account).sync_enabled == old(account).sync_enabled,
        final(account).last_sync_at == old(account).last_sync_at,
        final(account).outbox_len == old(account).outbox_len,
        final(account).notice == old(account).notice,
        final(account).error == old(account).error,
        final(account).syncing == old(account).syncing,
        final(account).bind_dialog == old(account).bind_dialog,
{
    account.status = LoginStatus::LoggedIn;
    account.email = info.email;
    account.device_id = Some(info.device_id);
    account.subscription = info.subscription;
    account.relogin_required = false;
}

/// How a failed sync is reported.
#[derive(Debug, Clone, Copy, PartialEq, Eq, Structural)]
pub enum FailureReport {
    /// The credentials were refused: the user must sign in again.
    ReloginRequired,
    /// The cloud curriculum differs: the conflict is reported.
    Conflict,
    /// Anything else: the failure's message is shown as an error.
    Failed,
}

/// The report of a failed sync: a refused login first, then a conflict,
/// else a plain failure.
pub fn failure_report(failure: &SyncFailure) -> (r: FailureReport)
    ensures
        r == (if failure.unauthorized {
            FailureReport::ReloginRequired
        } else if failure.conflict {
            FailureReport::Conflict
        } else {
            FailureReport::Failed
        }),
{
    if failure.unauthorized {
        FailureReport::ReloginRequired
    } else if failure.conflict {
        FailureReport::Conflict
    } else {
        FailureReport::Failed
    }
}

/// A key pressed while the conflict dialog is open.
#[derive(Debug, Clone, Copy, PartialEq, Eq, Structural)]
pub enum DialogKey {
    /// Up or `k`.
    Up,
    /// Down or `j`.
    Down,
    Esc,
    Enter,
    Other,
}

/// How local progress meets the adopted cloud curriculum.
#[derive(Debug, Clone, Copy, PartialEq, Eq, Structural)]
pub enum ProgressChoice {
    Merge,
    StartFromCloud,
}

/// What the conflict dialog decides on a key.
#[derive(Debug, Clone)]
pub enum BindOutcome {
    /// Nothing to run (yet).
    Stay,
    /// Take the cloud curriculum, with the given handling of progress.
    Adopt(CurriculumPayload, ProgressChoice),
    /// Replace the cloud curriculum with this device's.
    Replace(CurriculumPayload),
}

/// The dialog and the outcome after `key`. Up and Down move the selection
/// among the three rows; Esc closes the dialog; Enter closes it and runs
/// the selected row: on the curriculum question, adopting asks about
/// progress first when there is local progress (else merges), the second
/// row replaces, the third cancels; on the progress question, the rows
/// merge, start from the cloud, or cancel.
pub open spec fn bind_dialog_key_spec(dialog: Option<BindDialog>, key: DialogKey) -> (Option<BindDialog>, BindOutcome) {
    match dialog {
        None => (None, BindOutcome::Stay),
        Some(d) => match key {
            DialogKey::Up => (Some(BindDialog { selected: if d.selected == 0 { 0 } else { (d.selected - 1) as usize }, ..d }), BindOutcome::Stay),
            DialogKey::Down => (Some(BindDialog { selected: if d.selected + 1 > 2 { 2 } else { (d.selected + 1) as usize }, ..d }), BindOutcome::Stay),
            DialogKey::Esc => (None, BindOutcome::Stay),
            DialogKey::Enter => match d.step {
                BindDialogStep::Curriculum => if d.selected == 0 {
                    if d.has_local_progress {
                        (Some(BindDialog { step: BindDialogStep::Progress, ..d }), BindOutcome::Stay)
                    } else {
                        (None, BindOutcome::Adopt(d.payload, ProgressChoice::Merge))
                    }
                } else if d.selected == 1 {
                    (None, BindOutcome::Replace(d.payload))
                } else {
                    (None, BindOutcome::Stay)
                },
                BindDialogStep::Progress => if d.selected == 0 {
                    (None, BindOutcome::Adopt(d.payload, ProgressChoice::Merge))
                } else if d.selected == 1 {
                    (None, BindOutcome::Adopt(d.payload, ProgressChoice::StartFromCloud))
                } else {
                    (None, BindOutcome::Stay)
                },
            },
            DialogKey::Other => (Some(d), BindOutcome::Stay),
        },
    }
}

/// Handles a key while the conflict dialog may be open.
pub fn bind_dialog_key(dialog: &mut Option<BindDialog>, key: DialogKey) -> (r: BindOutcome)
    ensures
        (*final(dialog), r) == bind_dialog_key_spec(*old(dialog), key),
{
    let current = dialog.take();
    match current {
        None => BindOutcome::Stay,
        Some(d) => match key {
            DialogKey::Up => {
                let selected = if d.selected == 0 { 0 } else { d.selected - 1 };
                *dialog = Some(BindDialog { selected, ..d });
                BindOutcome::Stay
            },
            DialogKey::Down => {
                let selected = if d.selected >= 2 { 2 } else { d.selected + 1 };
                *dialog = Some(BindDialog { selected, ..d });
                BindOutcome::Stay
            },
            DialogKey::Esc => BindOutcome::Stay,
            DialogKey::Enter => match d.step {
                BindDialogStep::Curriculum => {
                    if d.selected == 0 {
                        if d.has_local_progress {
                            *dialog = Some(BindDialog { step: BindDialogStep::Progress, ..d });
                            BindOutcome::Stay
                        } else {
                            BindOutcome::Adopt(d.payload, ProgressChoice::Merge)
                        }
                    } else if d.selected == 1 {
                        BindOutcome::Replace(d.payload)
                    } else {
                        BindOutcome::Stay
                    }
                },
                BindDialogStep::Progress => {
                    if d.selected == 0 {
                        BindOutcome::Adopt(d.payload, ProgressChoice::Merge)
                    } else if d.selected == 1 {
                        BindOutcome::Adopt(d.payload, ProgressChoice::StartFromCloud)
                    } else {
                        BindOutcome::Stay
                    }
                },
            },
            DialogKey::Other => {
                *dialog = Some(d);
                BindOutcome::Stay
            },
        },
    }
}

/// The texts of the account section, in the learner's native language.
pub struct SettingsLabels {
    pub account_sign_in: &'static str,
    pub account_sign_in_retry: &'static str,
    pub account_not_logged_in: &'static str,
    pub account_starting: &'static str,
    pub account_code_label: &'static str,
    pub account_verification_label: &'static str,
    pub account_waiting: &'static str,
    pub account_expired: &'static str,
    pub account_logging_in: &'static str,
    pub account_email_label: &'static str,
    pub account_device_label: &'static str,
    pub account_subscription_label: &'static str,
    pub account_unavailable: &'static str,
    pub account_last_sync_label: &'static str,
    pub account_never_synced: &'static str,
    pub account_pending_label: &'static str,
    pub account_relogin_required: &'static str,
    pub account_syncing: &'static str,
    pub account_sync_now: &'static str,
    pub account_sync_toggle_label: &'static str,
    pub account_sync_on: &'static str,
    pub account_sync_off: &'static str,
    pub account_sign_out: &'static str,
    pub account_conflict_title: &'static str,
    pub account_conflict_topics: &'static str,
    pub account_conflict_adopt: &'static str,
    pub account_conflict_replace: &'static str,
    pub account_conflict_cancel: &'static str,
    pub account_progress_merge_title: &'static str,
    pub account_progress_merge_merge: &'static str,
    pub account_progress_merge_cloud: &'static str,
    pub account_sync_done: &'static str,
    pub account_adopt_done: &'static str,
    pub account_replace_done: &'static str,
    pub account_sync_conflict: &'static str,
    pub account_sync_conflict_toast: &'static str,
    pub account_sync_failed: &'static str,
}

/// A line of plain text.
pub open spec fn text_line(t: Seq<char>) -> Seq<(Seq<char>, TextStyle)> {
    seq![(t, plain())]
}

/// An action row: its marker and label, green and bold when selected.
pub open spec fn action_line_spec(marker: Seq<char>, label: Seq<char>, selected: bool) -> Seq<(Seq<char>, TextStyle)> {
    seq![(marker + label, if selected { selected_style() } else { plain() })]
}

/// An information row: the label dimmed, then the value.
pub open spec fn info_line_spec(label: Seq<char>, value: Seq<char>) -> Seq<(Seq<char>, TextStyle)> {
    seq![(label + ": "@, colored(ThemeColor::DarkGray)), (value, plain())]
}

/// The text of an optional string, or `default`.
pub open spec fn or_text(o: Option<String>, default: Seq<char>) -> Seq<char> {
    match o {
        Some(s) => s@,
        None => default,
    }
}

/// The lines of an error message, in the error colour.
pub open spec fn error_block(e: Seq<char>) -> Seq<Seq<(Seq<char>, TextStyle)>> {
    Seq::new(text_lines(e).len(), |i: int| seq![(text_lines(e)[i], colored(ThemeColor::Red))])
}

/// The rows that depend on the login state.
pub open spec fn status_rows(a: AccountState, active_field: usize, l: SettingsLabels) -> Seq<Seq<(Seq<char>, TextStyle)>> {
    let count: nat = match a.status {
        LoginStatus::LoggedOut | LoginStatus::Expired => 1,
        LoginStatus::LoggedIn => 3,
        _ => 0,
    };
    let sel = |row: nat| active_field == row && count > 0;
    let marker = |row: nat| if active_field == row && count > 0 { "> "@ } else { "  "@ };
    match a.status {
        LoginStatus::LoggedOut => seq![action_line_spec(marker(0), l.account_sign_in@, sel(0))] + if a.error is None {
            seq![text_line(""@), text_line(l.account_not_logged_in@)]
        } else {
            Seq::empty()
        },
        LoginStatus::Starting => seq![text_line(l.account_starting@)],
        LoginStatus::WaitingConfirmation => seq![
            seq![(l.account_code_label@ + " "@, colored(ThemeColor::DarkGray)), (or_text(a.user_code, ""@), bold_style())],
            seq![(l.account_verification_label@ + " "@, colored(ThemeColor::DarkGray)), (or_text(a.verification_url, ""@), plain())],
            text_line(l.account_waiting@),
        ],
        LoginStatus::Expired => seq![action_line_spec(marker(0), l.account_sign_in_retry@, sel(0))] + if a.error is None {
            seq![text_line(""@), text_line(l.account_expired@)]
        } else {
            Seq::empty()
        },
        LoginStatus::LoggingIn => seq![text_line(l.account_logging_in@)],
        LoginStatus::LoggedIn => seq![
            info_line_spec(l.account_email_label@, or_text(a.email, "—"@)),
            info_line_spec(l.account_device_label@, or_text(a.device_id, "—"@)),
            info_line_spec(l.account_subscription_label@, or_text(a.subscription, l.account_unavailable@)),
            info_line_spec(l.account_last_sync_label@, or_text(a.last_sync_at, l.account_never_synced@)),
            info_line_spec(l.account_pending_label@, match a.outbox_len {
                Some(n) => decimal(n as nat),
                None => "—"@,
            }),
        ] + (if a.relogin_required {
            seq![seq![(l.account_relogin_required@, colored(ThemeColor::Red))]]
        } else {
            Seq::empty()
        }) + seq![
            text_line(""@),
            action_line_spec(marker(0), if a.syncing { l.account_syncing@ } else { l.account_sync_now@ }, sel(0)),
            action_line_spec(
                marker(1),
                l.account_sync_toggle_label@ + ": "@ + if a.sync_enabled { l.account_sync_on@ } else { l.account_sync_off@ },
                sel(1),
            ),
            action_line_spec(marker(2), l.account_sign_out@, sel(2)),
        ],
    }
}

/// The account section's body: the rows of the login state, a syncing line
/// outside the logged-in state, then the error in red and the notice in
/// yellow, each after a blank line. The selected action row carries the
/// marker `> `.
pub open spec fn account_body_spec(a: AccountState, active_field: usize, l: SettingsLabels) -> Seq<Seq<(Seq<char>, TextStyle)>> {
    status_rows(a, active_field, l) + (if a.syncing && a.status != LoginStatus::LoggedIn {
        seq![text_line(l.account_syncing@)]
    } else {
        Seq::empty()
    }) + match a.error {
        Some(e) => seq![text_line(""@)] + error_block(e@),
        None => Seq::empty(),
    } + match a.notice {
        Some(n) => seq![text_line(""@), seq![(n@, colored(ThemeColor::Yellow))]],
        None => Seq::empty(),
    }
}

fn text_row(t: &str) -> (r: StyledLine)
    ensures
        line_view(r) == text_line(t@),
{
    one_span_line(copy_str(t), plain_style())
}

fn action_row(selected: bool, label: &str) -> (r: StyledLine)
    ensures
        line_view(r) == action_line_spec(if selected { "> "@ } else { "  "@ }, label@, selected),
{
    let mut content = copy_str(if selected { "> " } else { "  " });
    push_str(&mut content, label);
    let style = if selected {
        TextStyle { fg: Some(ThemeColor::Green), bg: None, bold: true, italic: false, underlined: false, dim: false }
    } else {
        plain_style()
    };
    one_span_line(content, style)
}

fn info_row(label: &str, value: &str) -> (r: StyledLine)
    ensures
        line_view(r) == info_line_spec(label@, value@),
{
    let mut head = copy_str(label);
    push_str(&mut head, ": ");
    two_span_line(head, colored_style(ThemeColor::DarkGray), copy_str(value), plain_style())
}

fn opt_text<'a>(o: &'a Option<String>, default: &'a str) -> (r: &'a str)
    ensures
        r@ == or_text(*o, default@),
{
    match o {
        Some(s) => s.as_str(),
        None => default,
    }
}

fn status_rows_exec(a: &AccountState, active_field: usize, l: &SettingsLabels) -> (r: Vec<StyledLine>)
    ensures
        lines_view(r@) == status_rows(*a, active_field, *l),
{
    let count = action_count(a);
    let mut r: Vec<StyledLine> = Vec::new();
    match a.status {
        LoginStatus::LoggedOut => {
            r.push(action_row(active_field == 0 && count > 0, l.account_sign_in));
            if a.error.is_none() {
                r.push(text_row(""));
                r.push(text_row(l.account_not_logged_in));
            }
        },
        LoginStatus::Starting => {
            r.push(text_row(l.account_starting));
        },
        LoginStatus::WaitingConfirmation => {
            let mut code = copy_str(l.account_code_label);
            push_str(&mut code, " ");
            r.push(two_span_line(code, colored_style(ThemeColor::DarkGray), copy_str(opt_text(&a.user_code, "")),
                TextStyle { fg: None, bg: None, bold: true, italic: false, underlined: false, dim: false }));
            let mut url = copy_str(l.account_verification_label);
            push_str(&mut url, " ");
            r.push(two_span_line(url, colored_style(ThemeColor::DarkGray), copy_str(opt_text(&a.verification_url, "")), plain_style()));
            r.push(text_row(l.account_waiting));
        },
        LoginStatus::Expired => {
            r.push(action_row(active_field == 0 && count > 0, l.account_sign_in_retry));
            if a.error.is_none() {
                r.push(text_row(""));
                r.push(text_row(l.account_expired));
            }
        },
        LoginStatus::LoggingIn => {
            r.push(text_row(l.account_logging_in));
        },
        LoginStatus::LoggedIn => {
            r.push(info_row(l.account_email_label, opt_text(&a.email, "—")));
            r.push(info_row(l.account_device_label, opt_text(&a.device_id, "—")));
            r.push(info_row(l.account_subscription_label, opt_text(&a.subscription, l.account_unavailable)));
            r.push(info_row(l.account_last_sync_label, opt_text(&a.last_sync_at, l.account_never_synced)));
            let mut pending = String::new();
            match a.outbox_len {
                Some(n) => push_decimal(&mut pending, n as u64),
                None => push_str(&mut pending, "—"),
            }
            r.push(info_row(l.account_pending_label, pending.as_str()));
            if a.relogin_required {
                r.push(one_span_line(copy_str(l.account_relogin_required), colored_style(ThemeColor::Red)));
            }
            r.push(text_row(""));
            r.push(action_row(active_field == 0, if a.syncing { l.account_syncing } else { l.account_sync_now }));
            let mut toggle = copy_str(l.account_sync_toggle_label);
            push_str(&mut toggle, ": ");
            push_str(&mut toggle, if a.sync_enabled { l.account_sync_on } else { l.account_sync_off });
            r.push(action_row(active_field == 1, toggle.as_str()));
            r.push(action_row(active_field == 2, l.account_sign_out));
        },
    }
    assert(lines_view(r@) =~~= status_rows(*a, active_field, *l));
    r
}

/// The lines of the account section's body.
pub fn account_body(a: &AccountState, active_field: usize, l: &SettingsLabels) -> (r: Vec<StyledLine>)
    ensures
        lines_view(r@) == account_body_spec(*a, active_field, *l),
{
    let mut r = status_rows_exec(a, active_field, l);
    let ghost rows = lines_view(r@);
    if a.syncing && a.status != LoginStatus::LoggedIn {
        r.push(text_row(l.account_syncing));
    }
    let ghost with_syncing = lines_view(r@);
    assert(with_syncing =~~= rows + (if a.syncing && a.status != LoginStatus::LoggedIn {
        seq![text_line(l.account_syncing@)]
    } else {
        Seq::empty()
    }));
    if let Some(e) = &a.error {
        r.push(text_row(""));
        let lines = error_lines(e.as_str());
        let mut i: usize = 0;
        let ghost base = lines_view(r@);
        while i < lines.len()
            invariant
                i <= lines@.len(),
                lines@.len() == text_lines(e@).len(),
                forall|k: int| 0 <= k < lines@.len() ==> (#[trigger] lines@[k])@ == text_lines(e@)[k],
                lines_view(r@) =~~= base + error_block(e@).take(i as int),
            decreases lines@.len() - i,
        {
            let ghost before = r@;
            let line = one_span_line(copy_str(lines[i].as_str()), colored_style(ThemeColor::Red));
            r.push(line);
            assert(r@ =~= before.push(line));
            assert(lines_view(r@) =~~= lines_view(before).push(line_view(line)));
            assert(error_block(e@).take(i + 1) =~~= error_block(e@).take(i as int).push(error_block(e@)[i as int]));
            i = i + 1;
        }
        assert(error_block(e@).take(lines@.len() as int) =~~= error_block(e@));
    }
    let ghost with_error = lines_view(r@);
    assert(with_error =~~= with_syncing + match a.error {
        Some(e) => seq![text_line(""@)] + error_block(e@),
        None => Seq::empty(),
    });
    if let Some(n) = &a.notice {
        r.push(text_row(""));
        r.push(one_span_line(copy_str(n.as_str()), colored_style(ThemeColor::Yellow)));
    }
    assert(lines_view(r@) =~~= account_body_spec(*a, active_field, *l));
    r
}

/// What the conflict dialog shows: its title, its lines and its footer.
pub struct BindDialogText {
    pub title: String,
    pub lines: Vec<StyledLine>,
    pub footer: StyledLine,
}

/// The dialog's title for its step.
pub open spec fn bind_dialog_title(step: BindDialogStep, l: SettingsLabels) -> Seq<char> {
    match step {
        BindDialogStep::Curriculum => l.account_conflict_title@,
        BindDialogStep::Progress => l.account_progress_merge_title@,
    }
}

/// The three choices of the dialog's step, the last one cancelling.
pub open spec fn bind_dialog_options(step: BindDialogStep, l: SettingsLabels) -> Seq<Seq<char>> {
    match step {
        BindDialogStep::Curriculum => seq![l.account_conflict_adopt@, l.account_conflict_replace@, l.account_conflict_cancel@],
        BindDialogStep::Progress => seq![l.account_progress_merge_merge@, l.account_progress_merge_cloud@, l.account_conflict_cancel@],
    }
}

/// A choice of the dialog: the marker `> ` on the selected one, then the
/// choice in bold.
pub open spec fn option_line(selected: bool, label: Seq<char>) -> Seq<(Seq<char>, TextStyle)> {
    seq![(if selected { "> "@ } else { "  "@ }, plain()), (label, bold_style())]
}

/// The dialog's lines: on the curriculum question, the number of cloud
/// topics put into `{count}` and a blank line; then the three choices.
pub open spec fn bind_dialog_lines(d: BindDialog, l: SettingsLabels) -> Seq<Seq<(Seq<char>, TextStyle)>> {
    let options = bind_dialog_options(d.step, l);
    (if d.step == BindDialogStep::Curriculum {
        seq![
            text_line(replaced_from(l.account_conflict_topics@, "{count}"@, decimal(d.payload.topics@.len()), 0)),
            text_line(""@),
        ]
    } else {
        Seq::empty()
    }) + seq![
        option_line(d.selected == 0, options[0]),
        option_line(d.selected == 1, options[1]),
        option_line(d.selected == 2, options[2]),
    ]
}

/// The dialog's footer: the keys and what they do, dimmed.
pub open spec fn bind_dialog_footer(c: CommonLabels) -> Seq<(Seq<char>, TextStyle)> {
    seq![("↑/↓ "@ + c.navigate@ + " | Enter "@ + c.confirm@ + " | Esc "@ + c.back@, colored(ThemeColor::DarkGray))]
}

fn option_row(selected: bool, label: &str) -> (r: StyledLine)
    ensures
        line_view(r) == option_line(selected, label@),
{
    two_span_line(
        copy_str(if selected { "> " } else { "  " }),
        plain_style(),
        copy_str(label),
        TextStyle { fg: None, bg: None, bold: true, italic: false, underlined: false, dim: false },
    )
}

/// The text of the conflict dialog.
pub fn bind_dialog_text(d: &BindDialog, l: &SettingsLabels, c: &CommonLabels) -> (r: BindDialogText)
    ensures
        r.title@ == bind_dialog_title(d.step, *l),
        lines_view(r.lines@) == bind_dialog_lines(*d, *l),
        line_view(r.footer) == bind_dialog_footer(*c),
{
    let (title, first, second) = match d.step {
        BindDialogStep::Curriculum => (l.account_conflict_title, l.account_conflict_adopt, l.account_conflict_replace),
        BindDialogStep::Progress => (l.account_progress_merge_title, l.account_progress_merge_merge, l.account_progress_merge_cloud),
    };
    let mut lines: Vec<StyledLine> = Vec::new();
    if matches!(d.step, BindDialogStep::Curriculum) {
        let mut count = String::new();
        push_decimal(&mut count, d.payload.topics.len() as u64);
        let topics = replace_text(l.account_conflict_topics, "{count}", count.as_str());
        lines.push(one_span_line(topics, plain_style()));
        lines.push(text_row(""));
    }
    lines.push(option_row(d.selected == 0, first));
    lines.push(option_row(d.selected == 1, second));
    lines.push(option_row(d.selected == 2, l.account_conflict_cancel));
    let mut footer = copy_str("↑/↓ ");
    push_str(&mut footer, c.navigate);
    push_str(&mut footer, " | Enter ");
    push_str(&mut footer, c.confirm);
    push_str(&mut footer, " | Esc ");
    push_str(&mut footer, c.back);
    proof {
        reveal_strlit("{count}");
    }
    assert(lines_view(lines@) =~~= bind_dialog_lines(*d, *l));
    BindDialogText { title: copy_str(title), lines, footer: one_span_line(footer, colored_style(ThemeColor::DarkGray)) }
}

} // verus!

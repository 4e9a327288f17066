//! State of the terminal interface that does not depend on the terminal
//! itself: the spinner, help entries, the sync scheduler and the account
//! section, and the startup messages.
use vstd::prelude::*;

pub mod screens;
pub mod account;
pub mod account_messages;
pub mod help;
pub mod session_screen;
pub mod settings;
pub mod style;
pub mod sync_all;

use crate::sync_protocol::CurriculumPayload;
use crate::words::{lemma_split_pieces_nonempty, split_by, split_pieces, views, Sep};
use crate::text::{
    chars_of, copy_str, decimal, has_prefix, push_decimal, push_str, starts_with, substring, trim,
    trim_spec,
};

verus! {

/// The frame of the spinner animation for a frame number.
pub open spec fn spinner_frame(i: nat) -> Seq<char> {
    let k = i % 10;
    if k == 0 {
        "⠋"@
    } else if k == 1 {
        "⠙"@
    } else if k == 2 {
        "⠹"@
    } else if k == 3 {
        "⠸"@
    } else if k == 4 {
        "⠼"@
    } else if k == 5 {
        "⠴"@
    } else if k == 6 {
        "⠦"@
    } else if k == 7 {
        "⠧"@
    } else if k == 8 {
        "⠇"@
    } else {
        "⠏"@
    }
}

/// A loading spinner cycling through ten braille frames.
#[derive(Clone, Copy)]
pub struct Spinner {
    frame: usize,
}

impl View for Spinner {
    type V = nat;

    /// The current frame number.
    closed spec fn view(&self) -> nat {
        self.frame as nat
    }
}

impl Spinner {
    /// A spinner at the first frame.
    pub fn new() -> (r: Spinner)
        ensures
            r@ == 0,
    {
        Spinner { frame: 0 }
    }

    /// A spinner at the given frame.
    pub fn with_frame(frame: usize) -> (r: Spinner)
        ensures
            r@ == frame,
    {
        Spinner { frame }
    }

    /// The symbol of the current frame.
    pub fn symbol(&self) -> (r: &'static str)
        ensures
            r@ == spinner_frame(self@),
    {
        let k = self.frame % 10;
        if k == 0 {
            "⠋"
        } else if k == 1 {
            "⠙"
        } else if k == 2 {
            "⠹"
        } else if k == 3 {
            "⠸"
        } else if k == 4 {
            "⠼"
        } else if k == 5 {
            "⠴"
        } else if k == 6 {
            "⠦"
        } else if k == 7 {
            "⠧"
        } else if k == 8 {
            "⠇"
        } else {
            "⠏"
        }
    }

    /// Advances to the next frame, wrapping after the tenth.
    pub fn next(&mut self)
        ensures
            final(self)@ == (old(self)@ + 1) % 10,
    {
        let ghost f = self.frame as nat;
        self.frame = (self.frame % 10 + 1) % 10;
        assert((f % 10 + 1) % 10 == (f + 1) % 10) by (nonlinear_arith);
    }
}

impl Default for Spinner {
    fn default() -> (r: Spinner)
        ensures
            r@ == 0,
    {
        Spinner::new()
    }
}

/// After ten steps the spinner shows the symbol it started with.
pub proof fn lemma_spinner_period(frame: nat)
    ensures
        spinner_frame(frame + 10) == spinner_frame(frame),
{
    assert((frame + 10) % 10 == frame % 10) by (nonlinear_arith);
}

/// A boxed error message with a title and a footer hint.
pub struct ErrorBox {
    message: String,
    title: &'static str,
    footer_hint: &'static str,
}

impl ErrorBox {
    /// An error box showing `message` under `title`, with `footer_hint`
    /// below it.
    pub fn new(message: String, title: &'static str, footer_hint: &'static str) -> (r: ErrorBox)
        ensures
            r.message() == message@,
            r.title() == title@,
            r.footer_hint() == footer_hint@,
    {
        ErrorBox { message, title, footer_hint }
    }

    /// The message of the box.
    pub closed spec fn message(&self) -> Seq<char> {
        self.message@
    }

    /// The title of the box.
    pub closed spec fn title(&self) -> Seq<char> {
        self.title@
    }

    /// The footer hint of the box.
    pub closed spec fn footer_hint(&self) -> Seq<char> {
        self.footer_hint@
    }

    /// The text shown inside the box: the message, a blank line and the
    /// footer hint.
    pub fn body_text(&self) -> (r: String)
        ensures
            r@ == self.message() + "\n\n"@ + self.footer_hint(),
    {
        let mut t = copy_str(self.message.as_str());
        push_str(&mut t, "\n\n");
        push_str(&mut t, self.footer_hint);
        t
    }

    /// The title of the box.
    pub fn title_text(&self) -> (r: &'static str)
        ensures
            r@ == self.title(),
    {
        self.title
    }
}

/// One key binding shown in the help overlay.
pub struct HelpEntry {
    pub key: &'static str,
    pub action: String,
}

/// A titled group of key bindings.
pub struct HelpGroup {
    pub title: &'static str,
    pub entries: Vec<HelpEntry>,
}

/// A help entry for `key`.
pub fn entry(key: &'static str, action: String) -> (r: HelpEntry)
    ensures
        r.key == key,
        r.action@ == action@,
{
    HelpEntry { key, action }
}

/// A help group titled `title`.
pub fn group(title: &'static str, entries: Vec<HelpEntry>) -> (r: HelpGroup)
    ensures
        r.title == title,
        r.entries@ == entries@,
{
    HelpGroup { title, entries }
}

/// Why a background sync was scheduled.
#[derive(Debug, Clone, Copy, PartialEq, Eq, Structural)]
pub enum SyncTrigger {
    /// Right after a successful login: bind and sync every pair.
    AfterLogin,
    /// Application start: quiet pull of every pair with sync enabled.
    AppStart,
    /// A session's analysis was applied: push the active pair.
    AfterAnalysis,
    /// Local synced data changed outside a session: push the active pair.
    DataChanged,
    /// Explicit "Sync now": bind and sync every pair.
    Manual,
}

/// Coalescing state of the sync scheduler: one run at a time, a repeated
/// trigger while running is remembered and re-run on completion.
#[derive(Debug, Clone, Copy, Default)]
pub struct SyncSchedulerState {
    pub active: bool,
    pub pending: Option<SyncTrigger>,
}

/// What the scheduler does with a trigger.
#[derive(Debug, Clone, Copy, PartialEq, Eq, Structural)]
pub enum ScheduleAction {
    /// Another run is active: the trigger was remembered.
    Coalesced,
    /// Start a push of the active pair, if its sync toggle is on.
    PushIfEnabled,
    /// Start the quiet pull of every pair.
    PullAll,
    /// Discover remote pairs, then bind and sync every pair.
    SyncAll,
}

/// The scheduler after a trigger, and what it starts: while a run is
/// active the trigger replaces the pending one; otherwise the trigger's run
/// starts. A push starts only when the pair's sync toggle is on (else the
/// scheduler stays idle); every other run starts unconditionally.
pub open spec fn scheduled(state: SyncSchedulerState, trigger: SyncTrigger, sync_enabled: bool) -> (
    SyncSchedulerState,
    ScheduleAction,
) {
    if state.active {
        (SyncSchedulerState { active: true, pending: Some(trigger) }, ScheduleAction::Coalesced)
    } else {
        match trigger {
            SyncTrigger::AfterAnalysis | SyncTrigger::DataChanged => (
                SyncSchedulerState { active: sync_enabled, pending: state.pending },
                ScheduleAction::PushIfEnabled,
            ),
            SyncTrigger::AppStart => (
                SyncSchedulerState { active: true, pending: state.pending },
                ScheduleAction::PullAll,
            ),
            _ => (SyncSchedulerState { active: true, pending: state.pending }, ScheduleAction::SyncAll),
        }
    }
}

/// The scheduling decision for a trigger.
pub fn schedule_decision(
    state: &mut SyncSchedulerState,
    trigger: SyncTrigger,
    sync_enabled: bool,
) -> (r: ScheduleAction)
    ensures
        (*final(state), r) == scheduled(*old(state), trigger, sync_enabled),
{
    if state.active {
        state.pending = Some(trigger);
        return ScheduleAction::Coalesced;
    }
    match trigger {
        SyncTrigger::AfterAnalysis | SyncTrigger::DataChanged => {
            if sync_enabled {
                state.active = true;
            }
            ScheduleAction::PushIfEnabled
        },
        SyncTrigger::AppStart => {
            state.active = true;
            ScheduleAction::PullAll
        },
        _ => {
            state.active = true;
            ScheduleAction::SyncAll
        },
    }
}

/// The scheduler when a run finishes, and the trigger to schedule next:
/// the scheduler goes idle and hands back the pending trigger, if any.
pub open spec fn finished(state: SyncSchedulerState) -> (SyncSchedulerState, Option<SyncTrigger>) {
    (SyncSchedulerState { active: false, pending: None }, state.pending)
}

/// Ends the active run; the returned trigger, if any, is scheduled next.
pub fn finish_run(state: &mut SyncSchedulerState) -> (r: Option<SyncTrigger>)
    ensures
        (*final(state), r) == finished(*old(state)),
{
    state.active = false;
    state.pending.take()
}

/// Triggers arriving while a run is active coalesce: the run's end hands
/// back only the last of them, and once it has been scheduled the
/// scheduler is busy again, or idle with nothing pending.
pub proof fn lemma_triggers_coalesce(
    state: SyncSchedulerState,
    first: SyncTrigger,
    second: SyncTrigger,
    enabled: bool,
)
    requires
        state.active,
    ensures
        ({
            let after_first = scheduled(state, first, enabled);
            let after_second = scheduled(after_first.0, second, enabled);
            let end = finished(after_second.0);
            &&& after_first.1 == ScheduleAction::Coalesced
            &&& after_second.1 == ScheduleAction::Coalesced
            &&& end.1 == Some(second)
            &&& !end.0.active
            &&& end.0.pending is None
            &&& scheduled(end.0, second, enabled).1 != ScheduleAction::Coalesced
        }),
{
}

/// The result of a login.
#[derive(Debug)]
pub struct LoginInfo {
    pub email: Option<String>,
    pub device_id: String,
    pub subscription: Option<String>,
}

/// What a finished sync operation did, for the status message.
#[derive(Debug, Clone, Copy, PartialEq, Eq, Structural)]
pub enum ReportAction {
    Sync,
    Adopt,
    Replace,
}

/// The report of a finished sync.
#[derive(Debug)]
pub struct SyncReport {
    pub revision: i64,
    pub action: ReportAction,
    pub topics: Option<usize>,
}

impl SyncReport {
    /// The report of a plain sync that reached `revision`.
    pub fn sync(revision: i64) -> (r: SyncReport)
        ensures
            r.revision == revision,
            r.action == ReportAction::Sync,
            r.topics is None,
    {
        SyncReport { revision, action: ReportAction::Sync, topics: None }
    }
}

/// Why a sync failed.
#[derive(Debug)]
pub struct SyncFailure {
    pub message: String,
    pub unauthorized: bool,
    pub conflict: bool,
}

impl SyncFailure {
    /// The server refused the credentials.
    pub fn unauthorized() -> (r: SyncFailure)
        ensures
            r.message@ == Seq::<char>::empty(),
            r.unauthorized,
            !r.conflict,
    {
        SyncFailure { message: String::new(), unauthorized: true, conflict: false }
    }

    /// The push conflicted with the server's curriculum.
    pub fn conflict() -> (r: SyncFailure)
        ensures
            r.message@ == Seq::<char>::empty(),
            !r.unauthorized,
            r.conflict,
    {
        SyncFailure { message: String::new(), unauthorized: false, conflict: true }
    }

    /// Any other failure, described by `message`.
    pub fn other(message: String) -> (r: SyncFailure)
        ensures
            r.message@ == message@,
            !r.unauthorized,
            !r.conflict,
    {
        SyncFailure { message, unauthorized: false, conflict: false }
    }
}

/// The login state of the account section.
#[derive(Debug, Clone, Copy, PartialEq, Eq, Default, Structural)]
pub enum LoginStatus {
    #[default]
    LoggedOut,
    Starting,
    WaitingConfirmation,
    Expired,
    LoggingIn,
    LoggedIn,
}

/// Which choice the bind dialog is asking for.
#[derive(Debug, Clone, Copy, PartialEq, Eq, Structural)]
pub enum BindDialogStep {
    /// Adopt the cloud curriculum, replace it with the local one, or cancel.
    Curriculum,
    /// Merge local progress with the cloud's or start from the cloud.
    Progress,
}

/// Modal first-bind or conflict resolution dialog.
#[derive(Debug, Clone)]
pub struct BindDialog {
    pub step: BindDialogStep,
    /// The server's canonical curriculum.
    pub payload: CurriculumPayload,
    /// Whether the user has local progress worth asking about.
    pub has_local_progress: bool,
    /// Selected option row: 0 = adopt/merge, 1 = replace/start from cloud,
    /// 2 = cancel.
    pub selected: usize,
}

/// State of the account section of the settings.
#[derive(Debug, Clone, Default)]
pub struct AccountState {
    pub status: LoginStatus,
    pub user_code: Option<String>,
    pub verification_url: Option<String>,
    pub email: Option<String>,
    pub device_id: Option<String>,
    pub sync_enabled: bool,
    pub last_sync_at: Option<String>,
    pub outbox_len: Option<usize>,
    pub subscription: Option<String>,
    pub relogin_required: bool,
    /// Transient status line.
    pub notice: Option<String>,
    /// Error line, shown as-is in the error style.
    pub error: Option<String>,
    pub syncing: bool,
    /// Modal conflict-resolution dialog, if open.
    pub bind_dialog: Option<BindDialog>,
}

/// Number of action rows for a login status: one (sign in) when logged out
/// or expired, three when logged in, none while a login is in progress.
pub fn action_count(account: &AccountState) -> (r: usize)
    ensures
        r == match account.status {
            LoginStatus::LoggedOut | LoginStatus::Expired => 1usize,
            LoginStatus::LoggedIn => 3usize,
            _ => 0usize,
        },
{
    match account.status {
        LoginStatus::LoggedOut | LoginStatus::Expired => 1,
        LoginStatus::LoggedIn => 3,
        _ => 0,
    }
}

/// The startup message after cleaning up topics, in Russian for "ru" and
/// in English otherwise.
pub fn cleanup_message(lang: &str, moved: usize, removed: usize) -> (r: String)
    ensures
        r@ == if lang@ == "ru"@ {
            "Очищено "@ + decimal(moved as nat) + " микро-тем и удалено "@ + decimal(removed as nat)
                + " устаревших тем"@
        } else {
            "Cleaned up "@ + decimal(moved as nat) + " micro-topics and removed "@ + decimal(
                removed as nat,
            ) + " stale topics"@
        },
{
    let ru = crate::text::str_eq(lang, "ru");
    let mut s = String::new();
    if ru {
        push_str(&mut s, "Очищено ");
        push_decimal(&mut s, moved as u64);
        push_str(&mut s, " микро-тем и удалено ");
        push_decimal(&mut s, removed as u64);
        push_str(&mut s, " устаревших тем");
    } else {
        push_str(&mut s, "Cleaned up ");
        push_decimal(&mut s, moved as u64);
        push_str(&mut s, " micro-topics and removed ");
        push_decimal(&mut s, removed as u64);
        push_str(&mut s, " stale topics");
    }
    s
}

/// The startup message after removing duplicates, in Russian for "ru" and
/// in English otherwise.
pub fn dedupe_message(lang: &str, removed_items: usize, removed_topics: usize) -> (r: String)
    ensures
        r@ == if lang@ == "ru"@ {
            "Удалено "@ + decimal(removed_items as nat) + " дубликатов учебных элементов и "@
                + decimal(removed_topics as nat) + " дубликатов тем"@
        } else {
            "Removed "@ + decimal(removed_items as nat) + " duplicate learning items and "@
                + decimal(removed_topics as nat) + " duplicate topics"@
        },
{
    let ru = crate::text::str_eq(lang, "ru");
    let mut s = String::new();
    if ru {
        push_str(&mut s, "Удалено ");
        push_decimal(&mut s, removed_items as u64);
        push_str(&mut s, " дубликатов учебных элементов и ");
        push_decimal(&mut s, removed_topics as u64);
        push_str(&mut s, " дубликатов тем");
    } else {
        push_str(&mut s, "Removed ");
        push_decimal(&mut s, removed_items as u64);
        push_str(&mut s, " duplicate learning items and ");
        push_decimal(&mut s, removed_topics as u64);
        push_str(&mut s, " duplicate topics");
    }
    s
}

/// The message after a successful update to `latest`.
pub fn updated_message(lang: &str, latest: &str) -> (r: String)
    ensures
        r@ == if lang@ == "ru"@ {
            "Обновлено до v"@ + latest@ + ". Запустите `opencourse`, чтобы начать новую версию."@
        } else {
            "Updated to v"@ + latest@ + ". Run `opencourse` to start the new version."@
        },
{
    let ru = crate::text::str_eq(lang, "ru");
    let mut s = String::new();
    if ru {
        push_str(&mut s, "Обновлено до v");
        push_str(&mut s, latest);
        push_str(&mut s, ". Запустите `opencourse`, чтобы начать новую версию.");
    } else {
        push_str(&mut s, "Updated to v");
        push_str(&mut s, latest);
        push_str(&mut s, ". Run `opencourse` to start the new version.");
    }
    s
}

/// The message before installing a newer release.
pub fn updating_message(lang: &str, current: &str, latest: &str) -> (r: String)
    ensures
        r@ == if lang@ == "ru"@ {
            "Обновление v"@ + current@ + " → v"@ + latest@ + "..."@
        } else {
            "Updating v"@ + current@ + " → v"@ + latest@ + "..."@
        },
{
    let ru = crate::text::str_eq(lang, "ru");
    let mut s = String::new();
    if ru {
        push_str(&mut s, "Обновление v");
    } else {
        push_str(&mut s, "Updating v");
    }
    push_str(&mut s, current);
    push_str(&mut s, " → v");
    push_str(&mut s, latest);
    push_str(&mut s, "...");
    s
}

/// The message when the installer failed, with its exit status as shown.
pub fn installer_failed_message(lang: &str, status: &str) -> (r: String)
    ensures
        r@ == if lang@ == "ru"@ {
            "Установщик завершился с ошибкой: "@ + status@
        } else {
            "Installer failed with status "@ + status@
        },
{
    let ru = crate::text::str_eq(lang, "ru");
    let mut s = String::new();
    if ru {
        push_str(&mut s, "Установщик завершился с ошибкой: ");
    } else {
        push_str(&mut s, "Installer failed with status ");
    }
    push_str(&mut s, status);
    s
}

/// The message when the running version is the latest release.
pub fn up_to_date_message(lang: &str, current: &str, latest: &str) -> (r: String)
    ensures
        r@ == if lang@ == "ru"@ {
            "Уже последняя версия (v"@ + current@ + ", последний релиз v"@ + latest@ + ")."@
        } else {
            "Already up to date (v"@ + current@ + ", latest release v"@ + latest@ + ")."@
        },
{
    let ru = crate::text::str_eq(lang, "ru");
    let mut s = String::new();
    if ru {
        push_str(&mut s, "Уже последняя версия (v");
        push_str(&mut s, current);
        push_str(&mut s, ", последний релиз v");
    } else {
        push_str(&mut s, "Already up to date (v");
        push_str(&mut s, current);
        push_str(&mut s, ", latest release v");
    }
    push_str(&mut s, latest);
    push_str(&mut s, ").");
    s
}

/// The message when the latest release could not be determined.
pub fn check_failed_message(lang: &str, current: &str) -> (r: String)
    ensures
        r@ == if lang@ == "ru"@ {
            "Не удалось проверить обновления (сеть недоступна?). Текущая версия: v"@ + current@
                + "."@
        } else {
            "Could not check for updates (network unavailable?). Current version: v"@ + current@
                + "."@
        },
{
    let ru = crate::text::str_eq(lang, "ru");
    let mut s = String::new();
    if ru {
        push_str(&mut s, "Не удалось проверить обновления (сеть недоступна?). Текущая версия: v");
    } else {
        push_str(&mut s, "Could not check for updates (network unavailable?). Current version: v");
    }
    push_str(&mut s, current);
    push_str(&mut s, ".");
    s
}

/// The prefix of the text of a crashed background task.
pub const TASK_PANICKED: &'static str = "task panicked";

/// The message of a crashed background task, from the text of its join
/// error: what follows "task panicked", without surrounding whitespace; a
/// text without that prefix is kept whole.
pub open spec fn panic_message_spec(text: Seq<char>) -> Seq<char> {
    if has_prefix(text, TASK_PANICKED@) {
        trim_spec(text.subrange(TASK_PANICKED@.len() as int, text.len() as int))
    } else {
        text
    }
}

/// The message shown for a crashed background task.
pub fn panic_message(text: &str) -> (r: String)
    ensures
        r@ == panic_message_spec(text@),
{
    if starts_with(text, TASK_PANICKED) {
        let v = chars_of(text);
        let n = TASK_PANICKED.unicode_len();
        let rest = substring(&v, n, v.len());
        trim(rest.as_str())
    } else {
        copy_str(text)
    }
}

/// A line without the carriage return that ends it, if one does.
pub open spec fn without_cr(l: Seq<char>) -> Seq<char> {
    if l.len() > 0 && l.last() == '\r' {
        l.drop_last()
    } else {
        l
    }
}

/// The lines of a text, as `str::lines` gives them: the pieces between
/// newlines, each without a carriage return before its newline; the text
/// after the last newline is a line only when it is not empty, and keeps a
/// final carriage return.
pub open spec fn text_lines(s: Seq<char>) -> Seq<Seq<char>> {
    let p = split_pieces(s, Sep::Char('\n'));
    let body = Seq::new((p.len() - 1) as nat, |i: int| without_cr(p[i]));
    if p.last().len() == 0 {
        body
    } else {
        body.push(p.last())
    }
}

/// The lines of an error message, shown one by one in the error style,
/// their text unchanged.
pub fn error_lines(message: &str) -> (r: Vec<String>)
    ensures
        r@.len() == text_lines(message@).len(),
        forall|i: int| 0 <= i < r@.len() ==> (#[trigger] r@[i])@ == text_lines(message@)[i],
{
    let chars = chars_of(message);
    let pieces = split_by(&chars, Sep::Char('\n'));
    proof {
        lemma_split_pieces_nonempty(message@, Sep::Char('\n'));
    }
    let ghost p = views(pieces@);
    let ghost lines = text_lines(message@);
    let n = pieces.len();
    let mut r: Vec<String> = Vec::new();
    let mut i: usize = 0;
    while i + 1 < n
        invariant
            p == views(pieces@),
            p == split_pieces(message@, Sep::Char('\n')),
            n == pieces@.len(),
            n >= 1,
            i + 1 <= n,
            r@.len() == i,
            forall|k: int| 0 <= k < i ==> (#[trigger] r@[k])@ == without_cr(p[k]),
        decreases n - i,
    {
        let piece = &pieces[i];
        assert(piece@ == p[i as int]);
        let len = piece.len();
        let end: usize = if len > 0 && piece[len - 1] == '\r' {
            len - 1
        } else {
            len
        };
        let line = substring(piece, 0, end);
        assert(line@ =~= without_cr(p[i as int]));
        r.push(line);
        i = i + 1;
    }
    let last = &pieces[n - 1];
    assert(last@ == p.last());
    if last.len() > 0 {
        r.push(substring(last, 0, last.len()));
        assert(r@[n - 1]@ =~= p.last());
    }
    r
}

} // verus!

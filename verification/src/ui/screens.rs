//! The screens of the application, the modes of the practice screen and the
//! onboarding steps.
use vstd::prelude::*;

verus! {

/// The screens of the application.
#[derive(Debug, Clone, Copy, PartialEq, Eq, Structural)]
pub enum View {
    Onboarding,
    Dashboard,
    Session,
    Docs,
    Report,
    Curriculum,
    Settings,
    ModelCheck,
    Pairs,
    SyncAll,
    UpdateAvailable,
    Quitting,
}

/// Whether a screen can scroll with the mouse (dashboard, docs and
/// curriculum).
pub fn view_supports_mouse(view: View) -> (r: bool)
    ensures
        r == (view == View::Dashboard || view == View::Docs || view == View::Curriculum),
{
    match view {
        View::Dashboard | View::Docs | View::Curriculum => true,
        _ => false,
    }
}

/// The modes of the practice screen.
#[derive(Debug, Clone, Copy, Default, PartialEq, Eq, Structural)]
pub enum Mode {
    #[default]
    TopicSelection,
    WarmUp,
    Practicing,
}

/// The steps of onboarding.
#[derive(Debug, Clone, Copy, PartialEq, Eq, Structural)]
pub enum Step {
    NativeLanguage,
    TargetLanguage,
    Age,
    Cefr,
    BatchSize,
    Provider,
    ApiKey,
    BaseUrl,
    Model,
}

impl Step {
    /// Every onboarding step, in order.
    pub fn all() -> (r: Vec<Step>)
        ensures
            vstd::view::View::view(&r) == seq![
                Step::NativeLanguage,
                Step::TargetLanguage,
                Step::Age,
                Step::Cefr,
                Step::BatchSize,
                Step::Provider,
                Step::ApiKey,
                Step::BaseUrl,
                Step::Model,
            ],
    {
        vec![
            Step::NativeLanguage,
            Step::TargetLanguage,
            Step::Age,
            Step::Cefr,
            Step::BatchSize,
            Step::Provider,
            Step::ApiKey,
            Step::BaseUrl,
            Step::Model,
        ]
    }
}

/// Whether an onboarding step is a free-text input.
pub fn is_text_step(step: Step) -> (r: bool)
    ensures
        r == (step == Step::NativeLanguage || step == Step::TargetLanguage || step == Step::Age
            || step == Step::ApiKey || step == Step::BaseUrl),
{
    match step {
        Step::NativeLanguage | Step::TargetLanguage | Step::Age | Step::ApiKey | Step::BaseUrl => true,
        _ => false,
    }
}

/// The text input that a kill shortcut (Ctrl+U, Ctrl+W or Ctrl+K) edits.
#[derive(Debug, Clone, Copy, PartialEq, Eq, Structural)]
pub enum KillTarget {
    /// The key is no kill shortcut here; it goes on to the screen.
    NotConsumed,
    /// The answer being typed on the practice screen, at its cursor.
    SessionInput,
    /// The settings field being edited, at its cursor.
    SettingsInput,
    /// The provider setup field being edited, which has no cursor of its
    /// own: the edit happens at the end of the line.
    SettingsInputAtEnd,
    /// The onboarding field being typed, which only grows at its end.
    OnboardingInputAtEnd,
}

/// Where a Control key with the letter `code` goes: the kill shortcuts
/// `u`, `w` and `k` edit the active text input of the practice screen while
/// practising, of the settings while a text field is being edited (at the
/// end of the line in the provider section), and of onboarding on a text
/// step; anything else is not consumed.
pub fn kill_target(
    code: char,
    view: View,
    session_mode: Mode,
    settings_text_active: bool,
    settings_in_provider_section: bool,
    onboarding_text_active: bool,
) -> (r: KillTarget)
    ensures
        !(code == 'u' || code == 'w' || code == 'k') ==> r == KillTarget::NotConsumed,
        (code == 'u' || code == 'w' || code == 'k') ==> r == (if view == View::Session
            && session_mode == Mode::Practicing {
            KillTarget::SessionInput
        } else if view == View::Settings && settings_text_active {
            if settings_in_provider_section {
                KillTarget::SettingsInputAtEnd
            } else {
                KillTarget::SettingsInput
            }
        } else if view == View::Onboarding && onboarding_text_active {
            KillTarget::OnboardingInputAtEnd
        } else {
            KillTarget::NotConsumed
        }),
{
    if !(code == 'u' || code == 'w' || code == 'k') {
        return KillTarget::NotConsumed;
    }
    match view {
        View::Session => match session_mode {
            Mode::Practicing => KillTarget::SessionInput,
            _ => KillTarget::NotConsumed,
        },
        View::Settings => {
            if !settings_text_active {
                KillTarget::NotConsumed
            } else if settings_in_provider_section {
                KillTarget::SettingsInputAtEnd
            } else {
                KillTarget::SettingsInput
            }
        },
        View::Onboarding => {
            if onboarding_text_active {
                KillTarget::OnboardingInputAtEnd
            } else {
                KillTarget::NotConsumed
            }
        },
        _ => KillTarget::NotConsumed,
    }
}

/// A key during the warm-up cards.
#[derive(Debug, Clone, Copy, PartialEq, Eq, Structural)]
pub enum WarmupKey {
    /// Enter or Space.
    Advance,
    /// `s`: skip the rest of the warm-up.
    Skip,
    Esc,
    Other,
}

/// Where the warm-up goes after a key.
#[derive(Debug, Clone, Copy, PartialEq, Eq, Structural)]
pub enum WarmupStep {
    /// Stay on the warm-up cards.
    Stay,
    /// Go on to the exercises.
    ToExercises,
    /// Leave the session for the dashboard.
    Leave,
}

/// The warm-up cards are forward-only flashcards: Advance first reveals
/// the current card's translation, then moves to the next card, and after
/// the last of `count` cards the exercises start; Skip starts them at once;
/// Esc leaves.
pub fn warmup_key(index: &mut usize, revealed: &mut bool, count: usize, key: WarmupKey) -> (r: WarmupStep)
    requires
        *old(index) < usize::MAX,
    ensures
        key == WarmupKey::Advance && !*old(revealed) ==> *final(revealed) && *final(index)
            == *old(index) && r == WarmupStep::Stay,
        key == WarmupKey::Advance && *old(revealed) ==> !*final(revealed) && *final(index)
            == *old(index) + 1 && r == (if *old(index) + 1 >= count {
            WarmupStep::ToExercises
        } else {
            WarmupStep::Stay
        }),
        key != WarmupKey::Advance ==> *final(revealed) == *old(revealed) && *final(index)
            == *old(index) && r == match key {
            WarmupKey::Skip => WarmupStep::ToExercises,
            WarmupKey::Esc => WarmupStep::Leave,
            _ => WarmupStep::Stay,
        },
{
    match key {
        WarmupKey::Esc => WarmupStep::Leave,
        WarmupKey::Skip => WarmupStep::ToExercises,
        WarmupKey::Advance => {
            if !*revealed {
                *revealed = true;
                WarmupStep::Stay
            } else {
                *index = *index + 1;
                *revealed = false;
                if *index >= count {
                    WarmupStep::ToExercises
                } else {
                    WarmupStep::Stay
                }
            }
        },
        WarmupKey::Other => WarmupStep::Stay,
    }
}

/// How far the scrollable content of the screens reaches beyond the
/// terminal.
#[derive(Debug, Clone, Copy, Default)]
pub struct ScrollExtent {
    /// How many lines the dashboard can scroll.
    pub dashboard_max_scroll: usize,
    /// Whether the docs screen shows a topic's text rather than the list.
    pub docs_viewing_topic: bool,
    /// How many lines a topic's text on the docs screen can scroll.
    pub docs_max_scroll: usize,
    /// Whether the docs topic list is longer than the screen.
    pub docs_list_overflows: bool,
    /// Whether the curriculum list is longer than the screen.
    pub curriculum_list_overflows: bool,
}

/// Whether the content of `view` is longer than the screen, so that the
/// mouse wheel has something to scroll: only the dashboard, the docs and
/// the curriculum scroll.
pub fn view_content_overflows(view: View, extent: &ScrollExtent) -> (r: bool)
    ensures
        r == match view {
            View::Dashboard => extent.dashboard_max_scroll > 0,
            View::Docs => if extent.docs_viewing_topic {
                extent.docs_max_scroll > 0
            } else {
                extent.docs_list_overflows
            },
            View::Curriculum => extent.curriculum_list_overflows,
            _ => false,
        },
{
    match view {
        View::Dashboard => extent.dashboard_max_scroll > 0,
        View::Docs => {
            if extent.docs_viewing_topic {
                extent.docs_max_scroll > 0
            } else {
                extent.docs_list_overflows
            }
        },
        View::Curriculum => extent.curriculum_list_overflows,
        _ => false,
    }
}

/// Whether the terminal should capture the mouse: when the user allows
/// it, the screen scrolls with the wheel, and its content overflows
/// (otherwise the terminal keeps its own text selection).
pub fn desired_mouse_capture(allowed: bool, view: View, extent: &ScrollExtent) -> (r: bool)
    ensures
        r == (allowed && (view == View::Dashboard || view == View::Docs || view == View::Curriculum)
            && match view {
            View::Dashboard => extent.dashboard_max_scroll > 0,
            View::Docs => if extent.docs_viewing_topic {
                extent.docs_max_scroll > 0
            } else {
                extent.docs_list_overflows
            },
            View::Curriculum => extent.curriculum_list_overflows,
            _ => false,
        }),
{
    allowed && view_supports_mouse(view) && view_content_overflows(view, extent)
}

/// What a turn of the mouse wheel does.
#[derive(Debug, Clone, Copy, PartialEq, Eq, Structural)]
pub enum WheelAction {
    Nothing,
    /// Scroll the dashboard by this many lines (negative: up).
    ScrollDashboard(i32),
    /// Scroll the docs topic text by this many lines.
    ScrollDocs(i32),
    /// Move the docs list selection down (true) or up (false), wrapping.
    SelectDocs(bool),
    /// Move the curriculum selection down (true) or up (false), wrapping.
    SelectCurriculum(bool),
}

/// The wheel scrolls text by three lines and moves list selections by one
/// row, on the screens that scroll.
pub fn wheel_action(view: View, down: bool, docs_viewing_topic: bool) -> (r: WheelAction)
    ensures
        r == match view {
            View::Dashboard => WheelAction::ScrollDashboard(if down { 3i32 } else { -3i32 }),
            View::Docs => if docs_viewing_topic {
                WheelAction::ScrollDocs(if down { 3i32 } else { -3i32 })
            } else {
                WheelAction::SelectDocs(down)
            },
            View::Curriculum => WheelAction::SelectCurriculum(down),
            _ => WheelAction::Nothing,
        },
{
    let delta: i32 = if down { 3 } else { -3 };
    match view {
        View::Dashboard => WheelAction::ScrollDashboard(delta),
        View::Docs => {
            if docs_viewing_topic {
                WheelAction::ScrollDocs(delta)
            } else {
                WheelAction::SelectDocs(down)
            }
        },
        View::Curriculum => WheelAction::SelectCurriculum(down),
        _ => WheelAction::Nothing,
    }
}

/// What is animating on screen.
#[derive(Debug, Clone, Copy, Default)]
pub struct Activity {
    pub session_loading: bool,
    pub docs_loading: bool,
    pub curriculum_loading: bool,
    pub model_check_running: bool,
    pub sync_all_done: bool,
    pub toast_shown: bool,
}

/// Whether the periodic tick redraws the terminal: only while something
/// animates (a spinner waiting on the model or the sync-all run, or a
/// toast); an idle terminal is not redrawn.
pub fn redraw_on_tick(view: View, activity: &Activity) -> (r: bool)
    ensures
        r == (activity.session_loading || activity.docs_loading || activity.curriculum_loading
            || activity.model_check_running || (view == View::SyncAll && !activity.sync_all_done)
            || activity.toast_shown),
{
    activity.session_loading || activity.docs_loading || activity.curriculum_loading
        || activity.model_check_running || (match view {
        View::SyncAll => !activity.sync_all_done,
        _ => false,
    }) || activity.toast_shown
}

/// What a key does on the update prompt.
#[derive(Debug, Clone, Copy, PartialEq, Eq, Structural)]
pub enum UpdateKeyAction {
    Nothing,
    /// `y`: run the installer and exit.
    Install,
    /// `n`, Esc or Enter: go on to the application.
    Continue,
}

/// The update prompt installs on `y` or `Y` and goes on to the application
/// on `n`, `N`, Esc or Enter (`esc_or_enter`).
pub fn update_key_action(key: Option<char>, esc_or_enter: bool) -> (r: UpdateKeyAction)
    ensures
        r == (if esc_or_enter {
            UpdateKeyAction::Continue
        } else {
            match key {
                Some(c) => if c == 'y' || c == 'Y' {
                    UpdateKeyAction::Install
                } else if c == 'n' || c == 'N' {
                    UpdateKeyAction::Continue
                } else {
                    UpdateKeyAction::Nothing
                },
                None => UpdateKeyAction::Nothing,
            }
        }),
{
    if esc_or_enter {
        return UpdateKeyAction::Continue;
    }
    match key {
        Some(c) => {
            if c == 'y' || c == 'Y' {
                UpdateKeyAction::Install
            } else if c == 'n' || c == 'N' {
                UpdateKeyAction::Continue
            } else {
                UpdateKeyAction::Nothing
            }
        },
        None => UpdateKeyAction::Nothing,
    }
}

/// The screen to go on to once the application is ready: onboarding
/// without a configuration; the curriculum when it has no topics yet;
/// otherwise the dashboard.
pub fn start_view(has_config: bool, curriculum_empty: bool) -> (r: View)
    ensures
        r == (if !has_config {
            View::Onboarding
        } else if curriculum_empty {
            View::Curriculum
        } else {
            View::Dashboard
        }),
{
    if !has_config {
        View::Onboarding
    } else if curriculum_empty {
        View::Curriculum
    } else {
        View::Dashboard
    }
}

/// Whether the main loop starts loading the topics for a pending new
/// topic: on the practice screen, with a new topic pending, nothing loading
/// on the practice or curriculum screen, and no topics loaded yet.
pub fn should_load_pending_topic(
    view: View,
    pending: bool,
    session_loading: bool,
    curriculum_loading: bool,
    topics_empty: bool,
) -> (r: bool)
    ensures
        r == (view == View::Session && pending && !session_loading && !curriculum_loading && topics_empty),
{
    matches!(view, View::Session) && pending && !session_loading && !curriculum_loading && topics_empty
}

} // verus!

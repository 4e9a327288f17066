use open_course::ui::help::{
    groups_for, CommonLabels, CurriculumSortBy, DocsLabels, HelpContext, PickerState,
    ProviderSetupStep, ReportLabels, Section,
};
use open_course::ui::screens::{Step, View};
use open_course::ui::HelpGroup;

fn common() -> CommonLabels {
    CommonLabels {
        help: "help",
        group_navigation: "group_navigation",
        group_actions: "group_actions",
        group_exit: "group_exit",
        clear_topic_selection: "clear_topic_selection",
        confirm: "confirm",
        reset: "reset",
        delete: "delete",
        cancel: "cancel",
        start_practice: "start_practice",
        all_topics: "all_topics",
        view: "view",
        back: "back",
        write_your_answer: "write_your_answer",
        new_topic: "new_topic",
        repeat: "repeat",
        docs: "docs",
        dashboard: "dashboard",
        continue_label: "continue_label",
        retry: "retry",
        skip: "skip",
        back_to_model_list: "back_to_model_list",
        navigate: "navigate",
        open: "open",
        action: "action",
        select: "select",
        move_caret: "move_caret",
        edit: "edit",
        save: "save",
        next: "next",
        manual: "manual",
        enter_manually: "enter_manually",
        select_provider: "select_provider",
        select_level: "select_level",
        select_batch_size: "select_batch_size",
        model_id: "model_id",
        select_model: "select_model",
        previous_step: "previous_step",
        quit: "quit",
        install_update: "install_update",
        skip_continue: "skip_continue",
    }
}

fn report() -> ReportLabels {
    ReportLabels {
        select_topic: "r.select_topic",
        start_label: "r.start_label",
        start_next_label: "r.start_next_label",
        curriculum: "r.curriculum",
        pairs: "r.pairs",
        settings: "r.settings",
        quit: "r.quit",
        generate_label: "r.generate_label",
        back: "r.back",
        sort_progression: "r.sort_progression",
        sort_score: "r.sort_score",
        navigate: "r.navigate",
        docs: "r.docs",
        sort: "r.sort",
        add_topics_label: "r.add_topics_label",
        delete_label: "r.delete_label",
        reset_label: "r.reset_label",
        wheel_scroll: "r.wheel_scroll",
        cancel: "r.cancel",
        start_session: "r.start_session",
        submit: "r.submit",
        switch: "r.switch",
        add_pair: "r.add_pair",
    }
}

fn docs() -> DocsLabels {
    DocsLabels {
        regenerate: "d.regenerate",
        sort: "d.sort",
    }
}

fn ctx(view: View) -> HelpContext {
    HelpContext {
        view,
        weak_listed: false,
        curriculum_pending_reset: false,
        curriculum_pending_delete: false,
        curriculum_empty: false,
        curriculum_sort: CurriculumSortBy::Progression,
        docs_viewing_topic: false,
        session_loading: false,
        session_practicing: false,
        model_check_running: false,
        settings_pending_reset: false,
        settings_in_section: false,
        settings_section: Section::Profile,
        provider_step: ProviderSetupStep::SelectProvider,
        provider_is_custom: false,
        settings_picker: PickerState::default(),
        onboarding_step: Step::NativeLanguage,
        onboarding_picker: PickerState::default(),
    }
}

fn render(groups: &[HelpGroup]) -> String {
    groups
        .iter()
        .map(|g| {
            let entries: Vec<String> =
                g.entries.iter().map(|e| format!("{}={}", e.key, e.action)).collect();
            format!("{}: {}", g.title, entries.join(", "))
        })
        .collect::<Vec<_>>()
        .join(" | ")
}

fn help(c: HelpContext) -> String {
    render(&groups_for(&c, &report(), &common(), &docs()))
}

#[test]
fn dashboard_help_lists_topic_keys_only_with_weak_topics() {
    let mut c = ctx(View::Dashboard);
    assert_eq!(
        help(c),
        "group_navigation: Esc=clear_topic_selection | group_actions: n=r.start_next_label, c=r.curriculum, p=r.pairs, s=r.settings | group_exit: q=r.quit"
    );
    c.weak_listed = true;
    assert_eq!(
        help(c),
        "group_navigation: ↑↓=r.select_topic, Esc=clear_topic_selection | group_actions: Enter=r.start_label, n=r.start_next_label, c=r.curriculum, p=r.pairs, s=r.settings | group_exit: q=r.quit"
    );
}

#[test]
fn curriculum_help_follows_its_state() {
    let mut c = ctx(View::Curriculum);
    c.curriculum_pending_reset = true;
    assert_eq!(help(c), "group_actions: y=confirm reset, n / Esc=cancel");
    c.curriculum_pending_reset = false;
    c.curriculum_pending_delete = true;
    assert_eq!(help(c), "group_actions: y=confirm delete, n / Esc=cancel");
    c.curriculum_pending_delete = false;
    c.curriculum_empty = true;
    assert_eq!(help(c), "group_actions: g / Enter=r.generate_label | group_exit: Esc=r.back");
    c.curriculum_empty = false;
    c.curriculum_sort = CurriculumSortBy::Score;
    assert_eq!(
        help(c),
        "group_navigation: ↑↓=r.navigate | group_actions: Enter=start_practice, d=r.docs, s=r.sort (r.sort_score), a=r.add_topics_label, x=r.delete_label, r=r.reset_label | group_exit: Esc=r.back"
    );
}

#[test]
fn settings_and_provider_setup_help() {
    let mut c = ctx(View::Settings);
    assert_eq!(help(c), "group_navigation: ↑/↓=navigate | group_actions: Enter=open | group_exit: Esc=back");
    c.settings_pending_reset = true;
    assert_eq!(help(c), "group_actions: y=confirm reset, any other key=cancel");
    c.settings_pending_reset = false;
    c.settings_in_section = true;
    c.settings_section = Section::Session;
    assert_eq!(help(c), "group_navigation: ↑/↓=select | group_exit: Esc=back");
    c.settings_section = Section::Provider;
    c.provider_step = ProviderSetupStep::BaseUrl;
    assert_eq!(help(c), "group_actions: Enter=next | group_exit: Esc=back");
    c.provider_is_custom = true;
    assert_eq!(help(c), "group_actions: (type)=edit, Enter=save | group_exit: Esc=back");
    c.provider_step = ProviderSetupStep::Model;
    c.settings_picker.error = true;
    assert_eq!(help(c), "group_actions: Enter=manual, r=retry | group_exit: Esc=back");
    c.settings_picker = PickerState::default();
    assert_eq!(help(c), "group_actions: Enter=enter_manually | group_exit: Esc=back");
}

#[test]
fn onboarding_help_ends_with_quit() {
    let mut c = ctx(View::Onboarding);
    assert_eq!(
        help(c),
        "group_navigation: Shift+Tab=previous_step | group_actions: (type)=edit, Tab / Enter=next | group_exit: Esc=quit"
    );
    c.onboarding_step = Step::Cefr;
    assert_eq!(help(c), "group_navigation: ↑/↓=select_level | group_actions: Enter=next | group_exit: Esc=quit");
    c.onboarding_step = Step::Model;
    c.onboarding_picker.loading = true;
    assert_eq!(help(c), "group_actions:  | group_exit: Esc=quit");
}

#[test]
fn other_screens_help() {
    let mut c = ctx(View::Session);
    c.session_loading = true;
    assert_eq!(help(c), "group_exit: Esc=r.cancel");
    c.session_loading = false;
    c.session_practicing = true;
    assert_eq!(help(c), "group_actions: (type)=write_your_answer, Enter=r.submit | group_exit: Esc=r.back");
    let mut c = ctx(View::Docs);
    c.docs_viewing_topic = true;
    assert_eq!(
        help(c),
        "group_navigation: ↑/↓=r.wheel_scroll | group_actions: e=d.regenerate, n=start_practice | group_exit: Esc=all_topics"
    );
    assert_eq!(help(ctx(View::Report)), "group_actions: n=new_topic, r=repeat, d=docs | group_exit: Esc=dashboard");
    assert_eq!(help(ctx(View::UpdateAvailable)), "group_actions: y=install_update | group_exit: n / Esc / Enter=skip_continue");
    assert_eq!(help(ctx(View::Quitting)), "");
}

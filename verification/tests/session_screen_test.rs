use open_course::curriculum::Topic;
use open_course::session::models::{WarmupItem, WarmupKind};
use open_course::ui::help::{CommonLabels, ReportLabels};
use open_course::ui::session_screen::{session_screen_text, SessionLabels, SessionMode, SessionView};
use open_course::ui::style::{StyledLine, ThemeColor};

fn common() -> CommonLabels {
    CommonLabels {
        help: "help",
        group_navigation: "group_navigation",
        group_actions: "group_actions",
        group_exit: "group_exit",
        clear_topic_selection: "clear_topic_selection",
        confirm: "confirm",
        reset: "reset",
        delete: "delete",
        cancel: "cancel",
        start_practice: "start_practice",
        all_topics: "all_topics",
        view: "view",
        back: "back",
        write_your_answer: "write_your_answer",
        new_topic: "new_topic",
        repeat: "repeat",
        docs: "docs",
        dashboard: "dashboard",
        continue_label: "continue_label",
        retry: "retry",
        skip: "skip",
        back_to_model_list: "back_to_model_list",
        navigate: "navigate",
        open: "open",
        action: "action",
        select: "select",
        move_caret: "move_caret",
        edit: "edit",
        save: "save",
        next: "next",
        manual: "manual",
        enter_manually: "enter_manually",
        select_provider: "select_provider",
        select_level: "select_level",
        select_batch_size: "select_batch_size",
        model_id: "model_id",
        select_model: "select_model",
        previous_step: "previous_step",
        quit: "quit",
        install_update: "install_update",
        skip_continue: "skip_continue",
    }
}

fn report() -> ReportLabels {
    ReportLabels {
        select_topic: "select_topic",
        start_label: "start_label",
        start_next_label: "start_next_label",
        curriculum: "curriculum",
        pairs: "pairs",
        settings: "settings",
        quit: "quit",
        generate_label: "generate_label",
        back: "back",
        sort_progression: "sort_progression",
        sort_score: "sort_score",
        navigate: "navigate",
        docs: "docs",
        sort: "sort",
        add_topics_label: "add_topics_label",
        delete_label: "delete_label",
        reset_label: "reset_label",
        wheel_scroll: "wheel_scroll",
        cancel: "cancel",
        start_session: "start_session",
        submit: "submit",
        switch: "switch",
        add_pair: "add_pair",
    }
}

fn labels() -> SessionLabels {
    SessionLabels {
        loading: "Loading",
        show_translation: "show translation",
        skip_warmup: "skip",
        session_report: "Session",
        choose_topic: "Choose a topic",
        no_topics: "No topics",
        difficulty_beginner: "easy",
        difficulty_intermediate: "medium",
        difficulty_advanced: "hard",
        warmup_title: "Warm-up",
        translate: "Translate",
        no_exercise: "No exercise",
        your_answer: "Your answer",
    }
}

fn view(mode: SessionMode) -> SessionView {
    SessionView {
        loading: false,
        spinner: "⠋",
        stream_status: None,
        loading_title: None,
        mode,
        topics: vec![],
        warmup_items: vec![],
        warmup_index: 0,
        warmup_revealed: false,
        exercises: None,
        current_exercise: 0,
    }
}

fn texts(line: &StyledLine) -> Vec<&str> {
    line.spans.iter().map(|s| s.text.as_str()).collect()
}

#[test]
fn loading_shows_the_latest_status() {
    let mut v = SessionView { loading: true, loading_title: Some("Generating".to_string()), ..view(SessionMode::Practicing) };
    let t = session_screen_text(&v, &report(), &labels(), &common());
    assert_eq!(t.footer, vec![("Esc", "cancel"), ("?", "help")]);
    assert_eq!(t.title, "");
    assert_eq!(texts(&t.lines[0]), vec!["⠋", " ", "Generating"]);
    assert_eq!(t.lines[0].spans[0].style.fg, Some(ThemeColor::Yellow));
    v.stream_status = Some("42 tokens".to_string());
    let t = session_screen_text(&v, &report(), &labels(), &common());
    assert_eq!(texts(&t.lines[0]), vec!["⠋", " ", "42 tokens"]);
    v.stream_status = None;
    v.loading_title = None;
    let t = session_screen_text(&v, &report(), &labels(), &common());
    assert_eq!(texts(&t.lines[0]), vec!["⠋", " ", "Loading"]);
}

#[test]
fn topic_selection_lists_topics_with_their_difficulty() {
    let topic = |name: &str, difficulty: &str| Topic { name: name.to_string(), difficulty: difficulty.to_string(), ..Default::default() };
    let mut v = view(SessionMode::TopicSelection);
    let t = session_screen_text(&v, &report(), &labels(), &common());
    assert_eq!(t.items, vec!["No topics"]);
    assert_eq!(t.title, "Session - select_topic");
    assert_eq!(t.input_title, None);
    assert_eq!(t.footer, vec![("↑↓", "navigate"), ("Enter", "start_session"), ("Esc", "back"), ("?", "help")]);
    v.topics = vec![topic("Ser", "beginner"), topic("Subjunctive", "advanced"), topic("Odd", "expert")];
    let t = session_screen_text(&v, &report(), &labels(), &common());
    assert_eq!(t.items, vec!["Ser [easy]", "Subjunctive [hard]", "Odd [expert]"]);
    assert_eq!(texts(&t.lines[0]), vec!["Choose a topic"]);
}

fn card(kind: WarmupKind, pos: Option<&str>) -> WarmupItem {
    WarmupItem {
        lemma_id: None,
        lemma: "colleague".to_string(),
        pos: pos.map(|p| p.to_string()),
        cefr_level: Some("B1".to_string()),
        translation: "коллега".to_string(),
        example: Some("My colleague is here.".to_string()),
        kind,
    }
}

#[test]
fn warmup_card_reveals_the_translation() {
    let mut v = view(SessionMode::WarmUp);
    v.warmup_items = vec![card(WarmupKind::Review, Some("NOUN")), card(WarmupKind::New, None)];
    v.warmup_index = 5;
    let t = session_screen_text(&v, &report(), &labels(), &common());
    assert_eq!(t.title, "Warm-up 2/2");
    assert_eq!(texts(&t.lines[0]), vec!["colleague", "  NEW · B1"]);
    assert_eq!(texts(&t.lines[1]), vec!["Enter: show translation"]);
    assert_eq!(t.footer, vec![("Enter", "show translation"), ("s", "skip"), ("Esc", "back")]);
    v.warmup_index = 0;
    v.warmup_revealed = true;
    let t = session_screen_text(&v, &report(), &labels(), &common());
    assert_eq!(t.title, "Warm-up 1/2");
    assert_eq!(texts(&t.lines[0]), vec!["colleague", "  NOUN · B1"]);
    assert_eq!(texts(&t.lines[1]), vec!["коллега"]);
    assert_eq!(texts(&t.lines[2]), vec!["My colleague is here."]);
    assert_eq!(t.footer[0], ("Enter", "next"));
    v.warmup_items.clear();
    let t = session_screen_text(&v, &report(), &labels(), &common());
    assert_eq!(t.title, "Warm-up 1/0");
    assert!(t.lines.is_empty());
}

#[test]
fn practice_shows_the_current_sentence() {
    let mut v = view(SessionMode::Practicing);
    let t = session_screen_text(&v, &report(), &labels(), &common());
    assert_eq!(t.title, "Translate");
    assert_eq!(texts(&t.lines[0]), vec!["No exercise"]);
    assert_eq!(t.footer, vec![("Enter", "submit"), ("Esc", "back")]);
    assert_eq!(t.input_title, Some("Your answer"));
    v.exercises = Some(vec!["Hola".to_string(), "Adiós".to_string()]);
    v.current_exercise = 1;
    let t = session_screen_text(&v, &report(), &labels(), &common());
    assert_eq!(t.title, "Translate 2/2");
    assert_eq!(texts(&t.lines[0]), vec!["Adiós"]);
    v.current_exercise = 2;
    let t = session_screen_text(&v, &report(), &labels(), &common());
    assert_eq!(t.title, "Translate 3/2");
    assert_eq!(texts(&t.lines[0]), vec!["No exercise"]);
}

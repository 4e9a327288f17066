//! The key bindings that the help overlay lists for each screen.
use vstd::prelude::*;

use super::screens;
use super::{entry, group, HelpEntry, HelpGroup};
use crate::text::{copy_str, push_str};

verus! {

/// The texts of the help overlay shared by every screen, in the learner's
/// native language.
pub struct CommonLabels {
    pub help: &'static str,
    pub group_navigation: &'static str,
    pub group_actions: &'static str,
    pub group_exit: &'static str,
    pub clear_topic_selection: &'static str,
    pub confirm: &'static str,
    pub reset: &'static str,
    pub delete: &'static str,
    pub cancel: &'static str,
    pub start_practice: &'static str,
    pub all_topics: &'static str,
    pub view: &'static str,
    pub back: &'static str,
    pub write_your_answer: &'static str,
    pub new_topic: &'static str,
    pub repeat: &'static str,
    pub docs: &'static str,
    pub dashboard: &'static str,
    pub continue_label: &'static str,
    pub retry: &'static str,
    pub skip: &'static str,
    pub back_to_model_list: &'static str,
    pub navigate: &'static str,
    pub open: &'static str,
    pub action: &'static str,
    pub select: &'static str,
    pub move_caret: &'static str,
    pub edit: &'static str,
    pub save: &'static str,
    pub next: &'static str,
    pub manual: &'static str,
    pub enter_manually: &'static str,
    pub select_provider: &'static str,
    pub select_level: &'static str,
    pub select_batch_size: &'static str,
    pub model_id: &'static str,
    pub select_model: &'static str,
    pub previous_step: &'static str,
    pub quit: &'static str,
    pub install_update: &'static str,
    pub skip_continue: &'static str,
}

/// The texts of the help overlay on the learning screens.
pub struct ReportLabels {
    pub select_topic: &'static str,
    pub start_label: &'static str,
    pub start_next_label: &'static str,
    pub curriculum: &'static str,
    pub pairs: &'static str,
    pub settings: &'static str,
    pub quit: &'static str,
    pub generate_label: &'static str,
    pub back: &'static str,
    pub sort_progression: &'static str,
    pub sort_score: &'static str,
    pub navigate: &'static str,
    pub docs: &'static str,
    pub sort: &'static str,
    pub add_topics_label: &'static str,
    pub delete_label: &'static str,
    pub reset_label: &'static str,
    pub wheel_scroll: &'static str,
    pub cancel: &'static str,
    pub start_session: &'static str,
    pub submit: &'static str,
    pub switch: &'static str,
    pub add_pair: &'static str,
}

/// The texts of the help overlay on the docs screen.
pub struct DocsLabels {
    pub regenerate: &'static str,
    pub sort: &'static str,
}

/// A help entry as plain text: its key and its action.
pub open spec fn entry_view(e: HelpEntry) -> (Seq<char>, Seq<char>) {
    (e.key@, e.action@)
}

/// A help group as plain text: its title and its entries.
pub open spec fn group_view(g: HelpGroup) -> (Seq<char>, Seq<(Seq<char>, Seq<char>)>) {
    (g.title@, g.entries@.map_values(|e: HelpEntry| entry_view(e)))
}

/// Help groups as plain text.
pub open spec fn help_view(gs: Seq<HelpGroup>) -> Seq<(Seq<char>, Seq<(Seq<char>, Seq<char>)>)> {
    gs.map_values(|g: HelpGroup| group_view(g))
}

fn item(key: &'static str, action: &'static str) -> (r: HelpEntry)
    ensures
        entry_view(r) == (key@, action@),
{
    entry(key, copy_str(action))
}

fn item_pair(key: &'static str, first: &'static str, second: &'static str) -> (r: HelpEntry)
    ensures
        entry_view(r) == (key@, first@ + " "@ + second@),
{
    let mut action = copy_str(first);
    push_str(&mut action, " ");
    push_str(&mut action, second);
    entry(key, action)
}

/// The dashboard's help: topic selection and start when weak topics are
/// listed, then the other screens and quitting.
pub open spec fn dashboard_help(weak_listed: bool, l: ReportLabels, c: CommonLabels) -> Seq<(Seq<char>, Seq<(Seq<char>, Seq<char>)>)> {
    let nav = (if weak_listed { seq![("↑↓"@, l.select_topic@)] } else { Seq::empty() }) + seq![("Esc"@, c.clear_topic_selection@)];
    let actions = (if weak_listed { seq![("Enter"@, l.start_label@)] } else { Seq::empty() }) + seq![
        ("n"@, l.start_next_label@),
        ("c"@, l.curriculum@),
        ("p"@, l.pairs@),
        ("s"@, l.settings@),
    ];
    seq![
        (c.group_navigation@, nav),
        (c.group_actions@, actions),
        (c.group_exit@, seq![("q"@, l.quit@)]),
    ]
}

fn dashboard_groups(weak_listed: bool, l: &ReportLabels, c: &CommonLabels) -> (r: Vec<HelpGroup>)
    ensures
        help_view(r@) == dashboard_help(weak_listed, *l, *c),
{
    let mut nav: Vec<HelpEntry> = Vec::new();
    let mut actions: Vec<HelpEntry> = Vec::new();
    if weak_listed {
        nav.push(item("↑↓", l.select_topic));
        actions.push(item("Enter", l.start_label));
    }
    nav.push(item("Esc", c.clear_topic_selection));
    actions.push(item("n", l.start_next_label));
    actions.push(item("c", l.curriculum));
    actions.push(item("p", l.pairs));
    actions.push(item("s", l.settings));
    let r = vec![
        group(c.group_navigation, nav),
        group(c.group_actions, actions),
        group(c.group_exit, vec![item("q", l.quit)]),
    ];
    assert(help_view(r@) =~~= dashboard_help(weak_listed, *l, *c));
    r
}

/// How the curriculum list is sorted.
#[derive(Debug, Clone, Copy, PartialEq, Eq, Structural)]
pub enum CurriculumSortBy {
    Progression,
    Score,
}

/// The sections of the settings screen.
#[derive(Debug, Clone, Copy, PartialEq, Eq, Structural)]
pub enum Section {
    Profile,
    Session,
    Provider,
    Data,
    Account,
}

/// The steps of the provider setup in the settings.
#[derive(Debug, Clone, Copy, PartialEq, Eq, Structural)]
pub enum ProviderSetupStep {
    SelectProvider,
    BaseUrl,
    Endpoint,
    ApiKey,
    Model,
}

/// What a model picker shows.
#[derive(Debug, Clone, Copy, Default)]
pub struct PickerState {
    /// The model list is being fetched.
    pub loading: bool,
    /// Fetching the list failed.
    pub error: bool,
    /// The model id is typed by hand.
    pub manual: bool,
    /// The fetched list has models.
    pub has_models: bool,
}

/// What the help overlay depends on.
#[derive(Debug, Clone, Copy)]
pub struct HelpContext {
    pub view: screens::View,
    /// The dashboard lists weak topics.
    pub weak_listed: bool,
    pub curriculum_pending_reset: bool,
    pub curriculum_pending_delete: bool,
    pub curriculum_empty: bool,
    pub curriculum_sort: CurriculumSortBy,
    pub docs_viewing_topic: bool,
    pub session_loading: bool,
    /// The practice screen takes answers (else it lists topics).
    pub session_practicing: bool,
    pub model_check_running: bool,
    pub settings_pending_reset: bool,
    pub settings_in_section: bool,
    pub settings_section: Section,
    pub provider_step: ProviderSetupStep,
    /// The provider being set up is a custom one, with editable addresses.
    pub provider_is_custom: bool,
    pub settings_picker: PickerState,
    pub onboarding_step: screens::Step,
    pub onboarding_picker: PickerState,
}

/// The curriculum's help: confirming a reset or a deletion, generating a
/// first curriculum, or browsing it.
pub open spec fn curriculum_help(ctx: HelpContext, l: ReportLabels, c: CommonLabels) -> Seq<(Seq<char>, Seq<(Seq<char>, Seq<char>)>)> {
    if ctx.curriculum_pending_reset {
        seq![(c.group_actions@, seq![("y"@, c.confirm@ + " "@ + c.reset@), ("n / Esc"@, c.cancel@)])]
    } else if ctx.curriculum_pending_delete {
        seq![(c.group_actions@, seq![("y"@, c.confirm@ + " "@ + c.delete@), ("n / Esc"@, c.cancel@)])]
    } else if ctx.curriculum_empty {
        seq![
            (c.group_actions@, seq![("g / Enter"@, l.generate_label@)]),
            (c.group_exit@, seq![("Esc"@, l.back@)]),
        ]
    } else {
        let sort_label = match ctx.curriculum_sort {
            CurriculumSortBy::Progression => l.sort_progression@,
            CurriculumSortBy::Score => l.sort_score@,
        };
        seq![
            (c.group_navigation@, seq![("↑↓"@, l.navigate@)]),
            (c.group_actions@, seq![
                ("Enter"@, c.start_practice@),
                ("d"@, l.docs@),
                ("s"@, l.sort@ + " ("@ + sort_label + ")"@),
                ("a"@, l.add_topics_label@),
                ("x"@, l.delete_label@),
                ("r"@, l.reset_label@),
            ]),
            (c.group_exit@, seq![("Esc"@, l.back@)]),
        ]
    }
}

fn curriculum_groups(ctx: &HelpContext, l: &ReportLabels, c: &CommonLabels) -> (r: Vec<HelpGroup>)
    ensures
        help_view(r@) == curriculum_help(*ctx, *l, *c),
{
    if ctx.curriculum_pending_reset {
        let r = vec![group(c.group_actions, vec![item_pair("y", c.confirm, c.reset), item("n / Esc", c.cancel)])];
        assert(help_view(r@) =~~= curriculum_help(*ctx, *l, *c));
        return r;
    }
    if ctx.curriculum_pending_delete {
        let r = vec![group(c.group_actions, vec![item_pair("y", c.confirm, c.delete), item("n / Esc", c.cancel)])];
        assert(help_view(r@) =~~= curriculum_help(*ctx, *l, *c));
        return r;
    }
    if ctx.curriculum_empty {
        let r = vec![
            group(c.group_actions, vec![item("g / Enter", l.generate_label)]),
            group(c.group_exit, vec![item("Esc", l.back)]),
        ];
        assert(help_view(r@) =~~= curriculum_help(*ctx, *l, *c));
        return r;
    }
    let sort_label: &'static str = match ctx.curriculum_sort {
        CurriculumSortBy::Progression => l.sort_progression,
        CurriculumSortBy::Score => l.sort_score,
    };
    let mut sort = copy_str(l.sort);
    push_str(&mut sort, " (");
    push_str(&mut sort, sort_label);
    push_str(&mut sort, ")");
    let r = vec![
        group(c.group_navigation, vec![item("↑↓", l.navigate)]),
        group(
            c.group_actions,
            vec![
                item("Enter", c.start_practice),
                item("d", l.docs),
                entry("s", sort),
                item("a", l.add_topics_label),
                item("x", l.delete_label),
                item("r", l.reset_label),
            ],
        ),
        group(c.group_exit, vec![item("Esc", l.back)]),
    ];
    assert(help_view(r@) =~~= curriculum_help(*ctx, *l, *c));
    r
}

/// The docs screen's help: scrolling a topic's text, or browsing the
/// topics.
pub open spec fn docs_help(viewing_topic: bool, l: ReportLabels, c: CommonLabels, d: DocsLabels) -> Seq<(Seq<char>, Seq<(Seq<char>, Seq<char>)>)> {
    if viewing_topic {
        seq![
            (c.group_navigation@, seq![("↑/↓"@, l.wheel_scroll@)]),
            (c.group_actions@, seq![("e"@, d.regenerate@), ("n"@, c.start_practice@)]),
            (c.group_exit@, seq![("Esc"@, c.all_topics@)]),
        ]
    } else {
        seq![
            (c.group_navigation@, seq![("↑/↓"@, l.navigate@), ("s"@, d.sort@)]),
            (c.group_actions@, seq![("Enter"@, c.view@), ("n"@, c.start_practice@)]),
            (c.group_exit@, seq![("Esc"@, c.back@)]),
        ]
    }
}

fn docs_groups(viewing_topic: bool, l: &ReportLabels, c: &CommonLabels, d: &DocsLabels) -> (r: Vec<HelpGroup>)
    ensures
        help_view(r@) == docs_help(viewing_topic, *l, *c, *d),
{
    let r = if viewing_topic {
        vec![
            group(c.group_navigation, vec![item("↑/↓", l.wheel_scroll)]),
            group(c.group_actions, vec![item("e", d.regenerate), item("n", c.start_practice)]),
            group(c.group_exit, vec![item("Esc", c.all_topics)]),
        ]
    } else {
        vec![
            group(c.group_navigation, vec![item("↑/↓", l.navigate), item("s", d.sort)]),
            group(c.group_actions, vec![item("Enter", c.view), item("n", c.start_practice)]),
            group(c.group_exit, vec![item("Esc", c.back)]),
        ]
    };
    assert(help_view(r@) =~~= docs_help(viewing_topic, *l, *c, *d));
    r
}

/// The practice screen's help: cancelling while loading, choosing a
/// topic, or answering.
pub open spec fn session_help(loading: bool, practicing: bool, l: ReportLabels, c: CommonLabels) -> Seq<(Seq<char>, Seq<(Seq<char>, Seq<char>)>)> {
    if loading {
        seq![(c.group_exit@, seq![("Esc"@, l.cancel@)])]
    } else if !practicing {
        seq![
            (c.group_navigation@, seq![("↑↓"@, l.navigate@)]),
            (c.group_actions@, seq![("Enter"@, l.start_session@)]),
            (c.group_exit@, seq![("Esc"@, l.back@)]),
        ]
    } else {
        seq![
            (c.group_actions@, seq![("(type)"@, c.write_your_answer@), ("Enter"@, l.submit@)]),
            (c.group_exit@, seq![("Esc"@, l.back@)]),
        ]
    }
}

fn session_groups(loading: bool, practicing: bool, l: &ReportLabels, c: &CommonLabels) -> (r: Vec<HelpGroup>)
    ensures
        help_view(r@) == session_help(loading, practicing, *l, *c),
{
    let r = if loading {
        vec![group(c.group_exit, vec![item("Esc", l.cancel)])]
    } else if !practicing {
        vec![
            group(c.group_navigation, vec![item("↑↓", l.navigate)]),
            group(c.group_actions, vec![item("Enter", l.start_session)]),
            group(c.group_exit, vec![item("Esc", l.back)]),
        ]
    } else {
        vec![
            group(c.group_actions, vec![item("(type)", c.write_your_answer), item("Enter", l.submit)]),
            group(c.group_exit, vec![item("Esc", l.back)]),
        ]
    };
    assert(help_view(r@) =~~= session_help(loading, practicing, *l, *c));
    r
}

/// The language pairs screen's help.
pub open spec fn pairs_help(l: ReportLabels, c: CommonLabels) -> Seq<(Seq<char>, Seq<(Seq<char>, Seq<char>)>)> {
    seq![
        (c.group_navigation@, seq![("↑/↓"@, l.navigate@)]),
        (c.group_actions@, seq![("Enter"@, l.switch@), ("a"@, l.add_pair@)]),
        (c.group_exit@, seq![("Esc"@, l.back@)]),
    ]
}

fn pairs_groups(l: &ReportLabels, c: &CommonLabels) -> (r: Vec<HelpGroup>)
    ensures
        help_view(r@) == pairs_help(*l, *c),
{
    let r = vec![
        group(c.group_navigation, vec![item("↑/↓", l.navigate)]),
        group(c.group_actions, vec![item("Enter", l.switch), item("a", l.add_pair)]),
        group(c.group_exit, vec![item("Esc", l.back)]),
    ];
    assert(help_view(r@) =~~= pairs_help(*l, *c));
    r
}

/// The report's help: the report is printed to the main screen, so it
/// has no scrolling, only the keys that go on.
pub open spec fn report_help(c: CommonLabels) -> Seq<(Seq<char>, Seq<(Seq<char>, Seq<char>)>)> {
    seq![
        (c.group_actions@, seq![("n"@, c.new_topic@), ("r"@, c.repeat@), ("d"@, c.docs@)]),
        (c.group_exit@, seq![("Esc"@, c.dashboard@)]),
    ]
}

fn report_groups(c: &CommonLabels) -> (r: Vec<HelpGroup>)
    ensures
        help_view(r@) == report_help(*c),
{
    let r = vec![
        group(c.group_actions, vec![item("n", c.new_topic), item("r", c.repeat), item("d", c.docs)]),
        group(c.group_exit, vec![item("Esc", c.dashboard)]),
    ];
    assert(help_view(r@) =~~= report_help(*c));
    r
}

/// The model check's help: cancelling while it runs, else going on.
pub open spec fn model_check_help(running: bool, c: CommonLabels) -> Seq<(Seq<char>, Seq<(Seq<char>, Seq<char>)>)> {
    if running {
        seq![(c.group_exit@, seq![("Esc"@, c.cancel@)])]
    } else {
        seq![
            (c.group_actions@, seq![("Enter / c"@, c.continue_label@), ("r"@, c.retry@), ("s"@, c.skip@)]),
            (c.group_exit@, seq![("Esc / b"@, c.back_to_model_list@)]),
        ]
    }
}

fn model_check_groups(running: bool, c: &CommonLabels) -> (r: Vec<HelpGroup>)
    ensures
        help_view(r@) == model_check_help(running, *c),
{
    let r = if running {
        vec![group(c.group_exit, vec![item("Esc", c.cancel)])]
    } else {
        vec![
            group(
                c.group_actions,
                vec![item("Enter / c", c.continue_label), item("r", c.retry), item("s", c.skip)],
            ),
            group(c.group_exit, vec![item("Esc / b", c.back_to_model_list)]),
        ]
    };
    assert(help_view(r@) =~~= model_check_help(running, *c));
    r
}

/// A step that is typed in and saved.
pub open spec fn edit_save_help(c: CommonLabels) -> Seq<(Seq<char>, Seq<(Seq<char>, Seq<char>)>)> {
    seq![
        (c.group_actions@, seq![("(type)"@, c.edit@), ("Enter"@, c.save@)]),
        (c.group_exit@, seq![("Esc"@, c.back@)]),
    ]
}

/// A list that is browsed and picked from.
pub open spec fn browse_select_help(c: CommonLabels) -> Seq<(Seq<char>, Seq<(Seq<char>, Seq<char>)>)> {
    seq![
        (c.group_navigation@, seq![("↑/↓"@, c.navigate@)]),
        (c.group_actions@, seq![("Enter"@, c.select@)]),
        (c.group_exit@, seq![("Esc"@, c.back@)]),
    ]
}

/// The provider setup's help, step by step: the addresses are editable
/// only for a custom provider; the model step follows its picker.
pub open spec fn provider_setup_help(ctx: HelpContext, c: CommonLabels) -> Seq<(Seq<char>, Seq<(Seq<char>, Seq<char>)>)> {
    match ctx.provider_step {
        ProviderSetupStep::SelectProvider => browse_select_help(c),
        ProviderSetupStep::BaseUrl | ProviderSetupStep::Endpoint => if ctx.provider_is_custom {
            edit_save_help(c)
        } else {
            seq![
                (c.group_actions@, seq![("Enter"@, c.next@)]),
                (c.group_exit@, seq![("Esc"@, c.back@)]),
            ]
        },
        ProviderSetupStep::ApiKey => edit_save_help(c),
        ProviderSetupStep::Model => {
            let picker = ctx.settings_picker;
            if picker.loading {
                seq![(c.group_exit@, seq![("Esc"@, c.back@)])]
            } else if picker.error {
                seq![
                    (c.group_actions@, seq![("Enter"@, c.manual@), ("r"@, c.retry@)]),
                    (c.group_exit@, seq![("Esc"@, c.back@)]),
                ]
            } else if picker.manual {
                edit_save_help(c)
            } else if !picker.has_models {
                seq![
                    (c.group_actions@, seq![("Enter"@, c.enter_manually@)]),
                    (c.group_exit@, seq![("Esc"@, c.back@)]),
                ]
            } else {
                browse_select_help(c)
            }
        },
    }
}

fn edit_save_groups(c: &CommonLabels) -> (r: Vec<HelpGroup>)
    ensures
        help_view(r@) == edit_save_help(*c),
{
    let r = vec![
        group(c.group_actions, vec![item("(type)", c.edit), item("Enter", c.save)]),
        group(c.group_exit, vec![item("Esc", c.back)]),
    ];
    assert(help_view(r@) =~~= edit_save_help(*c));
    r
}

fn browse_select_groups(c: &CommonLabels) -> (r: Vec<HelpGroup>)
    ensures
        help_view(r@) == browse_select_help(*c),
{
    let r = vec![
        group(c.group_navigation, vec![item("↑/↓", c.navigate)]),
        group(c.group_actions, vec![item("Enter", c.select)]),
        group(c.group_exit, vec![item("Esc", c.back)]),
    ];
    assert(help_view(r@) =~~= browse_select_help(*c));
    r
}

fn provider_setup_groups(ctx: &HelpContext, c: &CommonLabels) -> (r: Vec<HelpGroup>)
    ensures
        help_view(r@) == provider_setup_help(*ctx, *c),
{
    match ctx.provider_step {
        ProviderSetupStep::SelectProvider => browse_select_groups(c),
        ProviderSetupStep::BaseUrl | ProviderSetupStep::Endpoint => {
            if ctx.provider_is_custom {
                edit_save_groups(c)
            } else {
                let r = vec![
                    group(c.group_actions, vec![item("Enter", c.next)]),
                    group(c.group_exit, vec![item("Esc", c.back)]),
                ];
                assert(help_view(r@) =~~= provider_setup_help(*ctx, *c));
                r
            }
        },
        ProviderSetupStep::ApiKey => edit_save_groups(c),
        ProviderSetupStep::Model => {
            let picker = ctx.settings_picker;
            if picker.loading {
                let r = vec![group(c.group_exit, vec![item("Esc", c.back)])];
                assert(help_view(r@) =~~= provider_setup_help(*ctx, *c));
                r
            } else if picker.error {
                let r = vec![
                    group(c.group_actions, vec![item("Enter", c.manual), item("r", c.retry)]),
                    group(c.group_exit, vec![item("Esc", c.back)]),
                ];
                assert(help_view(r@) =~~= provider_setup_help(*ctx, *c));
                r
            } else if picker.manual {
                edit_save_groups(c)
            } else if !picker.has_models {
                let r = vec![
                    group(c.group_actions, vec![item("Enter", c.enter_manually)]),
                    group(c.group_exit, vec![item("Esc", c.back)]),
                ];
                assert(help_view(r@) =~~= provider_setup_help(*ctx, *c));
                r
            } else {
                browse_select_groups(c)
            }
        },
    }
}

/// The settings' help: confirming a reset, choosing a section, or the keys
/// of the open section.
pub open spec fn settings_help(ctx: HelpContext, c: CommonLabels) -> Seq<(Seq<char>, Seq<(Seq<char>, Seq<char>)>)> {
    if ctx.settings_pending_reset {
        seq![(c.group_actions@, seq![("y"@, c.confirm@ + " "@ + c.reset@), ("any other key"@, c.cancel@)])]
    } else if !ctx.settings_in_section {
        seq![
            (c.group_navigation@, seq![("↑/↓"@, c.navigate@)]),
            (c.group_actions@, seq![("Enter"@, c.open@)]),
            (c.group_exit@, seq![("Esc"@, c.back@)]),
        ]
    } else {
        match ctx.settings_section {
            Section::Provider => provider_setup_help(ctx, c),
            Section::Data => seq![
                (c.group_navigation@, seq![("↑/↓"@, c.action@)]),
                (c.group_actions@, seq![("Enter"@, c.reset@)]),
                (c.group_exit@, seq![("Esc"@, c.back@)]),
            ],
            Section::Account => seq![
                (c.group_navigation@, seq![("↑/↓"@, c.action@)]),
                (c.group_actions@, seq![("Enter"@, c.select@)]),
                (c.group_exit@, seq![("Esc"@, c.back@)]),
            ],
            Section::Session => seq![
                (c.group_navigation@, seq![("↑/↓"@, c.select@)]),
                (c.group_exit@, seq![("Esc"@, c.back@)]),
            ],
            Section::Profile => seq![
                (c.group_navigation@, seq![("←/→"@, c.move_caret@)]),
                (c.group_actions@, seq![("(type)"@, c.edit@), ("Enter"@, c.save@)]),
                (c.group_exit@, seq![("Esc"@, c.back@)]),
            ],
        }
    }
}

fn settings_groups(ctx: &HelpContext, c: &CommonLabels) -> (r: Vec<HelpGroup>)
    ensures
        help_view(r@) == settings_help(*ctx, *c),
{
    if ctx.settings_pending_reset {
        let r = vec![group(c.group_actions, vec![item_pair("y", c.confirm, c.reset), item("any other key", c.cancel)])];
        assert(help_view(r@) =~~= settings_help(*ctx, *c));
        return r;
    }
    if !ctx.settings_in_section {
        let r = vec![
            group(c.group_navigation, vec![item("↑/↓", c.navigate)]),
            group(c.group_actions, vec![item("Enter", c.open)]),
            group(c.group_exit, vec![item("Esc", c.back)]),
        ];
        assert(help_view(r@) =~~= settings_help(*ctx, *c));
        return r;
    }
    let r = match ctx.settings_section {
        Section::Provider => {
            return provider_setup_groups(ctx, c);
        },
        Section::Data => vec![
            group(c.group_navigation, vec![item("↑/↓", c.action)]),
            group(c.group_actions, vec![item("Enter", c.reset)]),
            group(c.group_exit, vec![item("Esc", c.back)]),
        ],
        Section::Account => vec![
            group(c.group_navigation, vec![item("↑/↓", c.action)]),
            group(c.group_actions, vec![item("Enter", c.select)]),
            group(c.group_exit, vec![item("Esc", c.back)]),
        ],
        Section::Session => vec![
            group(c.group_navigation, vec![item("↑/↓", c.select)]),
            group(c.group_exit, vec![item("Esc", c.back)]),
        ],
        Section::Profile => vec![
            group(c.group_navigation, vec![item("←/→", c.move_caret)]),
            group(c.group_actions, vec![item("(type)", c.edit), item("Enter", c.save)]),
            group(c.group_exit, vec![item("Esc", c.back)]),
        ],
    };
    assert(help_view(r@) =~~= settings_help(*ctx, *c));
    r
}

/// Onboarding's help for the current step, always ending with quitting:
/// pickers are browsed, the model step follows its picker, and text steps
/// are typed in.
pub open spec fn onboarding_help(step: screens::Step, picker: PickerState, c: CommonLabels) -> Seq<(Seq<char>, Seq<(Seq<char>, Seq<char>)>)> {
    let pick = |label: Seq<char>| seq![
        (c.group_navigation@, seq![("↑/↓"@, label)]),
        (c.group_actions@, seq![("Enter"@, c.next@)]),
    ];
    let typed = seq![
        (c.group_navigation@, seq![("Shift+Tab"@, c.previous_step@)]),
        (c.group_actions@, seq![("(type)"@, c.edit@), ("Tab / Enter"@, c.next@)]),
    ];
    let groups = match step {
        screens::Step::Provider => pick(c.select_provider@),
        screens::Step::Cefr => pick(c.select_level@),
        screens::Step::BatchSize => pick(c.select_batch_size@),
        screens::Step::Model => if picker.loading {
            seq![(c.group_actions@, Seq::empty())]
        } else if picker.error {
            seq![(c.group_actions@, seq![("r"@, c.retry@), ("m"@, c.enter_manually@)])]
        } else if picker.manual {
            seq![(c.group_actions@, seq![("(type)"@, c.model_id@), ("Enter"@, c.next@)])]
        } else if picker.has_models {
            pick(c.select_model@)
        } else {
            typed
        },
        _ => typed,
    };
    groups.push((c.group_exit@, seq![("Esc"@, c.quit@)]))
}

fn pick_groups(label: &'static str, c: &CommonLabels) -> (r: Vec<HelpGroup>)
    ensures
        help_view(r@) == seq![
            (c.group_navigation@, seq![("↑/↓"@, label@)]),
            (c.group_actions@, seq![("Enter"@, c.next@)]),
        ],
{
    let r = vec![
        group(c.group_navigation, vec![item("↑/↓", label)]),
        group(c.group_actions, vec![item("Enter", c.next)]),
    ];
    assert(help_view(r@) =~~= seq![
        (c.group_navigation@, seq![("↑/↓"@, label@)]),
        (c.group_actions@, seq![("Enter"@, c.next@)]),
    ]);
    r
}

fn typed_groups(c: &CommonLabels) -> (r: Vec<HelpGroup>)
    ensures
        help_view(r@) == seq![
            (c.group_navigation@, seq![("Shift+Tab"@, c.previous_step@)]),
            (c.group_actions@, seq![("(type)"@, c.edit@), ("Tab / Enter"@, c.next@)]),
        ],
{
    let r = vec![
        group(c.group_navigation, vec![item("Shift+Tab", c.previous_step)]),
        group(c.group_actions, vec![item("(type)", c.edit), item("Tab / Enter", c.next)]),
    ];
    assert(help_view(r@) =~~= seq![
        (c.group_navigation@, seq![("Shift+Tab"@, c.previous_step@)]),
        (c.group_actions@, seq![("(type)"@, c.edit@), ("Tab / Enter"@, c.next@)]),
    ]);
    r
}

fn onboarding_groups(step: screens::Step, picker: PickerState, c: &CommonLabels) -> (r: Vec<HelpGroup>)
    ensures
        help_view(r@) == onboarding_help(step, picker, *c),
{
    let mut groups = match step {
        screens::Step::Provider => pick_groups(c.select_provider, c),
        screens::Step::Cefr => pick_groups(c.select_level, c),
        screens::Step::BatchSize => pick_groups(c.select_batch_size, c),
        screens::Step::Model => {
            if picker.loading {
                let r = vec![group(c.group_actions, Vec::new())];
                assert(help_view(r@) =~~= seq![(c.group_actions@, Seq::<(Seq<char>, Seq<char>)>::empty())]);
                r
            } else if picker.error {
                let r = vec![group(c.group_actions, vec![item("r", c.retry), item("m", c.enter_manually)])];
                assert(help_view(r@) =~~= seq![(c.group_actions@, seq![("r"@, c.retry@), ("m"@, c.enter_manually@)])]);
                r
            } else if picker.manual {
                let r = vec![group(c.group_actions, vec![item("(type)", c.model_id), item("Enter", c.next)])];
                assert(help_view(r@) =~~= seq![(c.group_actions@, seq![("(type)"@, c.model_id@), ("Enter"@, c.next@)])]);
                r
            } else if picker.has_models {
                pick_groups(c.select_model, c)
            } else {
                typed_groups(c)
            }
        },
        _ => typed_groups(c),
    };
    let ghost before = help_view(groups@);
    groups.push(group(c.group_exit, vec![item("Esc", c.quit)]));
    assert(help_view(groups@) =~~= before.push((c.group_exit@, seq![("Esc"@, c.quit@)])));
    groups
}

/// The update prompt's help.
pub open spec fn update_help(c: CommonLabels) -> Seq<(Seq<char>, Seq<(Seq<char>, Seq<char>)>)> {
    seq![
        (c.group_actions@, seq![("y"@, c.install_update@)]),
        (c.group_exit@, seq![("n / Esc / Enter"@, c.skip_continue@)]),
    ]
}

fn update_groups(c: &CommonLabels) -> (r: Vec<HelpGroup>)
    ensures
        help_view(r@) == update_help(*c),
{
    let r = vec![
        group(c.group_actions, vec![item("y", c.install_update)]),
        group(c.group_exit, vec![item("n / Esc / Enter", c.skip_continue)]),
    ];
    assert(help_view(r@) =~~= update_help(*c));
    r
}

/// The help of each screen; screens without help (quitting, and the
/// sync-all progress) list nothing.
pub open spec fn help_for(ctx: HelpContext, l: ReportLabels, c: CommonLabels, d: DocsLabels) -> Seq<(Seq<char>, Seq<(Seq<char>, Seq<char>)>)> {
    match ctx.view {
        screens::View::Dashboard => dashboard_help(ctx.weak_listed, l, c),
        screens::View::Curriculum => curriculum_help(ctx, l, c),
        screens::View::Docs => docs_help(ctx.docs_viewing_topic, l, c, d),
        screens::View::Session => session_help(ctx.session_loading, ctx.session_practicing, l, c),
        screens::View::Pairs => pairs_help(l, c),
        screens::View::Report => report_help(c),
        screens::View::ModelCheck => model_check_help(ctx.model_check_running, c),
        screens::View::Settings => settings_help(ctx, c),
        screens::View::Onboarding => onboarding_help(ctx.onboarding_step, ctx.onboarding_picker, c),
        screens::View::UpdateAvailable => update_help(c),
        _ => Seq::empty(),
    }
}

/// The help overlay's groups for the current screen.
pub fn groups_for(ctx: &HelpContext, l: &ReportLabels, c: &CommonLabels, d: &DocsLabels) -> (r: Vec<HelpGroup>)
    ensures
        help_view(r@) == help_for(*ctx, *l, *c, *d),
{
    match ctx.view {
        screens::View::Dashboard => dashboard_groups(ctx.weak_listed, l, c),
        screens::View::Curriculum => curriculum_groups(ctx, l, c),
        screens::View::Docs => docs_groups(ctx.docs_viewing_topic, l, c, d),
        screens::View::Session => session_groups(ctx.session_loading, ctx.session_practicing, l, c),
        screens::View::Pairs => pairs_groups(l, c),
        screens::View::Report => report_groups(c),
        screens::View::ModelCheck => model_check_groups(ctx.model_check_running, c),
        screens::View::Settings => settings_groups(ctx, c),
        screens::View::Onboarding => onboarding_groups(ctx.onboarding_step, ctx.onboarding_picker, c),
        screens::View::UpdateAvailable => update_groups(c),
        _ => {
            let r: Vec<HelpGroup> = Vec::new();
            assert(help_view(r@) =~~= Seq::<(Seq<char>, Seq<(Seq<char>, Seq<char>)>)>::empty());
            r
        },
    }
}

} // verus!

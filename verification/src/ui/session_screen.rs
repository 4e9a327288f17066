//! What the practice session screen shows: the footer's keys, the card's
//! title and lines, and the topics to choose from.
use vstd::prelude::*;

use crate::curriculum::Topic;
use crate::llm::prompts::{join_strs, str_views};
use crate::session::models::{WarmupItem, WarmupKind};
use crate::text::{copy_str, decimal, joined, push_decimal, push_str, str_eq};
use super::help::{CommonLabels, ReportLabels};
use super::style::{
    bold_style, colored, colored_style, lines_view, one_span_line, plain, plain_style,
    StyledLine, StyledSpan, TextStyle, ThemeColor,
};

verus! {

/// The phase of the session screen.
#[derive(Debug, Clone, Copy, PartialEq, Eq, Structural)]
pub enum SessionMode {
    TopicSelection,
    WarmUp,
    Practicing,
}

/// The texts of the session screen, in the learner's native language.
pub struct SessionLabels {
    pub loading: &'static str,
    pub show_translation: &'static str,
    pub skip_warmup: &'static str,
    pub session_report: &'static str,
    pub choose_topic: &'static str,
    pub no_topics: &'static str,
    pub difficulty_beginner: &'static str,
    pub difficulty_intermediate: &'static str,
    pub difficulty_advanced: &'static str,
    pub warmup_title: &'static str,
    pub translate: &'static str,
    pub no_exercise: &'static str,
    pub your_answer: &'static str,
}

/// What the session screen shows of the application's state.
pub struct SessionView {
    /// Whether a request to the model is running.
    pub loading: bool,
    /// The spinner's current symbol.
    pub spinner: &'static str,
    /// The last status the running request reported.
    pub stream_status: Option<String>,
    /// What the running request is doing.
    pub loading_title: Option<String>,
    pub mode: SessionMode,
    /// The topics to choose from.
    pub topics: Vec<Topic>,
    pub warmup_items: Vec<WarmupItem>,
    pub warmup_index: usize,
    /// Whether the current warm-up card's translation is visible.
    pub warmup_revealed: bool,
    /// The sentences to translate, when a session is running.
    pub exercises: Option<Vec<String>>,
    /// The index of the current exercise.
    pub current_exercise: usize,
}

/// The text of the session screen.
pub struct SessionScreenText {
    /// The footer's keys with their actions.
    pub footer: Vec<(&'static str, &'static str)>,
    /// The card's title; empty while loading.
    pub title: String,
    /// The card's lines; while loading, the loading line alone.
    pub lines: Vec<StyledLine>,
    /// The topics to choose from, on topic selection.
    pub items: Vec<String>,
    /// The title of the answer box, while practising.
    pub input_title: Option<&'static str>,
}

/// The footer's keys and actions: cancelling while loading; navigating,
/// starting and going back on topic selection; revealing (or going on),
/// skipping and going back during the warm-up; submitting and going back
/// while practising.
pub open spec fn session_footer(v: SessionView, l: ReportLabels, s: SessionLabels, c: CommonLabels) -> Seq<(Seq<char>, Seq<char>)> {
    if v.loading {
        seq![("Esc"@, l.cancel@), ("?"@, c.help@)]
    } else {
        match v.mode {
            SessionMode::TopicSelection => seq![
                ("↑↓"@, l.navigate@),
                ("Enter"@, l.start_session@),
                ("Esc"@, l.back@),
                ("?"@, c.help@),
            ],
            SessionMode::WarmUp => seq![
                ("Enter"@, if v.warmup_revealed { c.next@ } else { s.show_translation@ }),
                ("s"@, s.skip_warmup@),
                ("Esc"@, l.back@),
            ],
            SessionMode::Practicing => seq![("Enter"@, l.submit@), ("Esc"@, l.back@)],
        }
    }
}

/// The label of a topic's difficulty: the three known levels translated,
/// any other shown as it is.
pub open spec fn difficulty_label(d: Seq<char>, s: SessionLabels) -> Seq<char> {
    if d == "beginner"@ {
        s.difficulty_beginner@
    } else if d == "intermediate"@ {
        s.difficulty_intermediate@
    } else if d == "advanced"@ {
        s.difficulty_advanced@
    } else {
        d
    }
}

/// A topic as listed: its name and, in brackets, its difficulty.
pub open spec fn topic_item(t: Topic, s: SessionLabels) -> Seq<char> {
    t.name@ + " ["@ + difficulty_label(t.difficulty@, s) + "]"@
}

/// The warm-up card shown: the current one, or the last when the index
/// ran past the end.
pub open spec fn shown_card(v: SessionView) -> int {
    let total = v.warmup_items@.len();
    if v.warmup_index < total {
        v.warmup_index as int
    } else if total == 0 {
        0
    } else {
        total - 1
    }
}

/// The small marks after a warm-up word: `NEW` for a new word, then its
/// part of speech and its level, where known.
pub open spec fn badges(item: WarmupItem) -> Seq<Seq<char>> {
    (if item.kind == WarmupKind::New {
        seq!["NEW"@]
    } else {
        Seq::empty()
    }) + match item.pos {
        Some(p) => seq![p@],
        None => Seq::empty(),
    } + match item.cefr_level {
        Some(c) => seq![c@],
        None => Seq::empty(),
    }
}

/// The lines of a warm-up card: the word in bold with its marks dimmed;
/// then the translation and the example in yellow once revealed, else a
/// dimmed hint that Enter reveals it.
pub open spec fn warmup_lines(item: WarmupItem, revealed: bool, s: SessionLabels) -> Seq<Seq<(Seq<char>, TextStyle)>> {
    let marks = badges(item);
    seq![
        seq![(item.lemma@, bold_style())] + if marks.len() > 0 {
            seq![("  "@ + joined(marks, " · "@), colored(ThemeColor::DarkGray))]
        } else {
            Seq::empty()
        },
    ] + if revealed {
        seq![seq![(item.translation@, plain())]] + match item.example {
            Some(e) => seq![seq![(e@, colored(ThemeColor::Yellow))]],
            None => Seq::empty(),
        }
    } else {
        seq![seq![("Enter: "@ + s.show_translation@, colored(ThemeColor::DarkGray))]]
    }
}

/// The card's title.
pub open spec fn session_title(v: SessionView, l: ReportLabels, s: SessionLabels) -> Seq<char> {
    if v.loading {
        Seq::empty()
    } else {
        match v.mode {
            SessionMode::TopicSelection => s.session_report@ + " - "@ + l.select_topic@,
            SessionMode::WarmUp => s.warmup_title@ + " "@ + decimal((shown_card(v) + 1) as nat) + "/"@
                + decimal(v.warmup_items@.len()),
            SessionMode::Practicing => match v.exercises {
                Some(ex) => s.translate@ + " "@ + decimal((v.current_exercise + 1) as nat) + "/"@ + decimal(
                    ex@.len(),
                ),
                None => s.translate@,
            },
        }
    }
}

/// The card's lines: while loading, the spinner in yellow and what is
/// being done (the request's last status, else its title, else a generic
/// label); the prompt to choose on topic selection; the current warm-up
/// card; the sentence to translate while practising.
pub open spec fn session_lines(v: SessionView, s: SessionLabels) -> Seq<Seq<(Seq<char>, TextStyle)>> {
    if v.loading {
        let message = match v.stream_status {
            Some(m) => m@,
            None => match v.loading_title {
                Some(t) => t@,
                None => s.loading@,
            },
        };
        seq![seq![(v.spinner@, colored(ThemeColor::Yellow)), (" "@, plain()), (message, plain())]]
    } else {
        match v.mode {
            SessionMode::TopicSelection => seq![seq![(s.choose_topic@, plain())]],
            SessionMode::WarmUp => if shown_card(v) < v.warmup_items@.len() {
                warmup_lines(v.warmup_items@[shown_card(v)], v.warmup_revealed, s)
            } else {
                Seq::empty()
            },
            SessionMode::Practicing => seq![
                seq![
                    (
                        match v.exercises {
                            Some(ex) => if v.current_exercise < ex@.len() {
                                ex@[v.current_exercise as int]@
                            } else {
                                s.no_exercise@
                            },
                            None => s.no_exercise@,
                        },
                        plain(),
                    ),
                ],
            ],
        }
    }
}

/// The topics listed on topic selection, or the note that there are none.
pub open spec fn session_items(v: SessionView, s: SessionLabels) -> Seq<Seq<char>> {
    if v.loading || v.mode != SessionMode::TopicSelection {
        Seq::empty()
    } else if v.topics@.len() == 0 {
        seq![s.no_topics@]
    } else {
        Seq::new(v.topics@.len(), |i: int| topic_item(v.topics@[i], s))
    }
}

fn difficulty_text<'a>(d: &'a str, s: &SessionLabels) -> (r: &'a str)
    ensures
        r@ == difficulty_label(d@, *s),
{
    proof {
        reveal_strlit("beginner");
        reveal_strlit("intermediate");
        reveal_strlit("advanced");
    }
    if str_eq(d, "beginner") {
        s.difficulty_beginner
    } else if str_eq(d, "intermediate") {
        s.difficulty_intermediate
    } else if str_eq(d, "advanced") {
        s.difficulty_advanced
    } else {
        d
    }
}

fn topic_items(topics: &Vec<Topic>, s: &SessionLabels) -> (r: Vec<String>)
    ensures
        r@.len() == topics@.len(),
        forall|i: int| 0 <= i < r@.len() ==> (#[trigger] r@[i])@ == topic_item(topics@[i], *s),
{
    let mut r: Vec<String> = Vec::new();
    let mut i: usize = 0;
    while i < topics.len()
        invariant
            i <= topics@.len(),
            r@.len() == i,
            forall|k: int| 0 <= k < i ==> (#[trigger] r@[k])@ == topic_item(topics@[k], *s),
        decreases topics@.len() - i,
    {
        let t = &topics[i];
        let mut line = copy_str(t.name.as_str());
        push_str(&mut line, " [");
        push_str(&mut line, difficulty_text(t.difficulty.as_str(), s));
        push_str(&mut line, "]");
        r.push(line);
        i = i + 1;
    }
    r
}

fn warmup_card(item: &WarmupItem, revealed: bool, s: &SessionLabels) -> (r: Vec<StyledLine>)
    ensures
        lines_view(r@) == warmup_lines(*item, revealed, *s),
{
    let mut marks: Vec<&str> = Vec::new();
    if matches!(item.kind, WarmupKind::New) {
        marks.push("NEW");
    }
    if let Some(p) = &item.pos {
        marks.push(p.as_str());
    }
    if let Some(c) = &item.cefr_level {
        marks.push(c.as_str());
    }
    proof {
        reveal_strlit("NEW");
    }
    assert(str_views(marks@) =~= badges(*item));
    let mut spans: Vec<StyledSpan> = Vec::new();
    spans.push(StyledSpan { text: copy_str(item.lemma.as_str()), style: TextStyle { fg: None, bg: None, bold: true, italic: false, underlined: false, dim: false } });
    if marks.len() > 0 {
        let mut text = copy_str("  ");
        let joined_marks = join_strs(marks.as_slice(), " · ");
        push_str(&mut text, joined_marks.as_str());
        spans.push(StyledSpan { text, style: colored_style(ThemeColor::DarkGray) });
    }
    let mut r: Vec<StyledLine> = Vec::new();
    r.push(StyledLine { spans });
    if revealed {
        r.push(one_span_line(copy_str(item.translation.as_str()), plain_style()));
        if let Some(e) = &item.example {
            r.push(one_span_line(copy_str(e.as_str()), colored_style(ThemeColor::Yellow)));
        }
    } else {
        let mut hint = copy_str("Enter: ");
        push_str(&mut hint, s.show_translation);
        r.push(one_span_line(hint, colored_style(ThemeColor::DarkGray)));
    }
    assert(lines_view(r@) =~~= warmup_lines(*item, revealed, *s));
    r
}

fn counter_title(label: &str, shown: usize, total: usize) -> (r: String)
    requires
        shown < usize::MAX,
    ensures
        r@ == label@ + " "@ + decimal((shown + 1) as nat) + "/"@ + decimal(total as nat),
{
    let mut t = copy_str(label);
    push_str(&mut t, " ");
    push_decimal(&mut t, (shown + 1) as u64);
    push_str(&mut t, "/");
    push_decimal(&mut t, total as u64);
    t
}

/// The session screen's text for `v`.
pub fn session_screen_text(v: &SessionView, l: &ReportLabels, s: &SessionLabels, c: &CommonLabels) -> (r: SessionScreenText)
    requires
        v.current_exercise < usize::MAX,
    ensures
        r.footer@.map_values(|p: (&'static str, &'static str)| (p.0@, p.1@)) == session_footer(*v, *l, *s, *c),
        r.title@ == session_title(*v, *l, *s),
        lines_view(r.lines@) == session_lines(*v, *s),
        r.items@.map_values(|t: String| t@) == session_items(*v, *s),
        r.input_title == (if !v.loading && v.mode == SessionMode::Practicing {
            Some(s.your_answer)
        } else {
            None
        }),
{
    let mut footer: Vec<(&'static str, &'static str)> = Vec::new();
    let mut lines: Vec<StyledLine> = Vec::new();
    let mut items: Vec<String> = Vec::new();
    let mut title = String::new();
    let mut input_title: Option<&'static str> = None;
    if v.loading {
        footer.push(("Esc", l.cancel));
        footer.push(("?", c.help));
        let message: &str = match &v.stream_status {
            Some(m) => m.as_str(),
            None => match &v.loading_title {
                Some(t) => t.as_str(),
                None => s.loading,
            },
        };
        lines.push(StyledLine {
            spans: vec![
                StyledSpan { text: copy_str(v.spinner), style: colored_style(ThemeColor::Yellow) },
                StyledSpan { text: copy_str(" "), style: plain_style() },
                StyledSpan { text: copy_str(message), style: plain_style() },
            ],
        });
    } else {
        match v.mode {
            SessionMode::TopicSelection => {
                footer.push(("↑↓", l.navigate));
                footer.push(("Enter", l.start_session));
                footer.push(("Esc", l.back));
                footer.push(("?", c.help));
                title = copy_str(s.session_report);
                push_str(&mut title, " - ");
                push_str(&mut title, l.select_topic);
                lines.push(one_span_line(copy_str(s.choose_topic), plain_style()));
                if v.topics.len() == 0 {
                    items.push(copy_str(s.no_topics));
                } else {
                    items = topic_items(&v.topics, s);
                }
            },
            SessionMode::WarmUp => {
                footer.push(("Enter", if v.warmup_revealed { c.next } else { s.show_translation }));
                footer.push(("s", s.skip_warmup));
                footer.push(("Esc", l.back));
                let total = v.warmup_items.len();
                let shown = if v.warmup_index < total {
                    v.warmup_index
                } else if total == 0 {
                    0
                } else {
                    total - 1
                };
                title = counter_title(s.warmup_title, shown, total);
                if shown < total {
                    lines = warmup_card(&v.warmup_items[shown], v.warmup_revealed, s);
                }
            },
            SessionMode::Practicing => {
                footer.push(("Enter", l.submit));
                footer.push(("Esc", l.back));
                let prompt: &str = match &v.exercises {
                    Some(ex) => {
                        title = counter_title(s.translate, v.current_exercise, ex.len());
                        if v.current_exercise < ex.len() {
                            ex[v.current_exercise].as_str()
                        } else {
                            s.no_exercise
                        }
                    },
                    None => {
                        title = copy_str(s.translate);
                        s.no_exercise
                    },
                };
                lines.push(one_span_line(copy_str(prompt), plain_style()));
                input_title = Some(s.your_answer);
            },
        }
    }
    assert(footer@.map_values(|p: (&'static str, &'static str)| (p.0@, p.1@)) =~= session_footer(*v, *l, *s, *c));
    assert(lines_view(lines@) =~~= session_lines(*v, *s));
    assert(items@.map_values(|t: String| t@) =~= session_items(*v, *s));
    SessionScreenText { footer, title, lines, items, input_title }
}

} // verus!

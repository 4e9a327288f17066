//! The text styles of the interface: the rendered markdown of topic reviews
//! and reports, and the styled lines of the screens.
use vstd::prelude::*;

verus! {

/// The colours of the interface's theme.
#[derive(Debug, Clone, Copy, PartialEq, Eq, Structural)]
pub enum ThemeColor {
    Blue,
    Yellow,
    White,
    DarkGray,
    Green,
    Red,
}

/// A text style: colours and emphasis, each unset by default.
#[derive(Debug, Clone, Copy, PartialEq, Eq, Structural)]
pub struct TextStyle {
    pub fg: Option<ThemeColor>,
    pub bg: Option<ThemeColor>,
    pub bold: bool,
    pub italic: bool,
    pub underlined: bool,
    pub dim: bool,
}

/// The plain style, with nothing set.
pub open spec fn plain() -> TextStyle {
    TextStyle { fg: None, bg: None, bold: false, italic: false, underlined: false, dim: false }
}

/// The style sheet of the rendered markdown.
#[derive(Debug, Clone, Copy)]
pub struct OpenCourseStyleSheet;

impl OpenCourseStyleSheet {
    /// Headings are blue: bold and underlined at level 1, bold at level 2,
    /// bold and italic at level 3, italic below.
    pub fn heading(&self, level: u8) -> (r: TextStyle)
        ensures
            r == (TextStyle {
                fg: Some(ThemeColor::Blue),
                bold: level == 1 || level == 2 || level == 3,
                italic: !(level == 1 || level == 2),
                underlined: level == 1,
                ..plain()
            }),
    {
        let base = TextStyle {
            fg: Some(ThemeColor::Blue),
            bg: None,
            bold: false,
            italic: false,
            underlined: false,
            dim: false,
        };
        if level == 1 {
            TextStyle { bold: true, underlined: true, ..base }
        } else if level == 2 {
            TextStyle { bold: true, ..base }
        } else if level == 3 {
            TextStyle { bold: true, italic: true, ..base }
        } else {
            TextStyle { italic: true, ..base }
        }
    }

    /// Inline code: white on dark grey.
    pub fn code(&self) -> (r: TextStyle)
        ensures
            r == (TextStyle { fg: Some(ThemeColor::White), bg: Some(ThemeColor::DarkGray), ..plain() }),
    {
        TextStyle {
            fg: Some(ThemeColor::White),
            bg: Some(ThemeColor::DarkGray),
            bold: false,
            italic: false,
            underlined: false,
            dim: false,
        }
    }

    /// Links: blue and underlined.
    pub fn link(&self) -> (r: TextStyle)
        ensures
            r == (TextStyle { fg: Some(ThemeColor::Blue), underlined: true, ..plain() }),
    {
        TextStyle { fg: Some(ThemeColor::Blue), bg: None, bold: false, italic: false, underlined: true, dim: false }
    }

    /// Block quotes: yellow.
    pub fn blockquote(&self) -> (r: TextStyle)
        ensures
            r == (TextStyle { fg: Some(ThemeColor::Yellow), ..plain() }),
    {
        TextStyle { fg: Some(ThemeColor::Yellow), bg: None, bold: false, italic: false, underlined: false, dim: false }
    }

    /// The markers of headings: dimmed.
    pub fn heading_meta(&self) -> (r: TextStyle)
        ensures
            r == (TextStyle { dim: true, ..plain() }),
    {
        TextStyle { fg: None, bg: None, bold: false, italic: false, underlined: false, dim: true }
    }

    /// Metadata blocks: yellow.
    pub fn metadata_block(&self) -> (r: TextStyle)
        ensures
            r == (TextStyle { fg: Some(ThemeColor::Yellow), ..plain() }),
    {
        TextStyle { fg: Some(ThemeColor::Yellow), bg: None, bold: false, italic: false, underlined: false, dim: false }
    }
}

/// The style with only a foreground colour.
pub open spec fn colored(c: ThemeColor) -> TextStyle {
    TextStyle { fg: Some(c), ..plain() }
}

/// The style of a selected action row: green and bold.
pub open spec fn selected_style() -> TextStyle {
    TextStyle { fg: Some(ThemeColor::Green), bold: true, ..plain() }
}

/// The style of emphasised text: bold.
pub open spec fn bold_style() -> TextStyle {
    TextStyle { bold: true, ..plain() }
}

/// A piece of a line in one style.
#[derive(Debug, Clone, PartialEq)]
pub struct StyledSpan {
    pub text: String,
    pub style: TextStyle,
}

/// A line of text made of styled pieces.
#[derive(Debug, Clone, PartialEq)]
pub struct StyledLine {
    pub spans: Vec<StyledSpan>,
}

/// A line as plain values: its pieces' texts with their styles.
pub open spec fn line_view(l: StyledLine) -> Seq<(Seq<char>, TextStyle)> {
    l.spans@.map_values(|s: StyledSpan| (s.text@, s.style))
}

/// Lines as plain values.
pub open spec fn lines_view(ls: Seq<StyledLine>) -> Seq<Seq<(Seq<char>, TextStyle)>> {
    ls.map_values(|l: StyledLine| line_view(l))
}

/// The style with nothing set.
pub fn plain_style() -> (r: TextStyle)
    ensures
        r == plain(),
{
    TextStyle { fg: None, bg: None, bold: false, italic: false, underlined: false, dim: false }
}

/// The style with only a foreground colour.
pub fn colored_style(c: ThemeColor) -> (r: TextStyle)
    ensures
        r == colored(c),
{
    TextStyle { fg: Some(c), bg: None, bold: false, italic: false, underlined: false, dim: false }
}

/// A line of one piece.
pub fn one_span_line(text: String, style: TextStyle) -> (r: StyledLine)
    ensures
        line_view(r) == seq![(text@, style)],
{
    let r = StyledLine { spans: vec![StyledSpan { text, style }] };
    assert(line_view(r) =~= seq![(text@, style)]);
    r
}

/// A line of two pieces.
pub fn two_span_line(a: String, a_style: TextStyle, b: String, b_style: TextStyle) -> (r: StyledLine)
    ensures
        line_view(r) == seq![(a@, a_style), (b@, b_style)],
{
    let r = StyledLine { spans: vec![StyledSpan { text: a, style: a_style }, StyledSpan { text: b, style: b_style }] };
    assert(line_view(r) =~= seq![(a@, a_style), (b@, b_style)]);
    r
}

} // verus!

use open_course::ui::style::{OpenCourseStyleSheet, TextStyle, ThemeColor};

fn plain() -> TextStyle {
    TextStyle { fg: None, bg: None, bold: false, italic: false, underlined: false, dim: false }
}

#[test]
fn headings_are_blue_with_emphasis_by_level() {
    let s = OpenCourseStyleSheet;
    let blue = TextStyle { fg: Some(ThemeColor::Blue), ..plain() };
    assert_eq!(s.heading(1), TextStyle { bold: true, underlined: true, ..blue });
    assert_eq!(s.heading(2), TextStyle { bold: true, ..blue });
    assert_eq!(s.heading(3), TextStyle { bold: true, italic: true, ..blue });
    assert_eq!(s.heading(4), TextStyle { italic: true, ..blue });
    assert_eq!(s.heading(0), TextStyle { italic: true, ..blue });
}

#[test]
fn other_markdown_styles() {
    let s = OpenCourseStyleSheet;
    assert_eq!(s.code(), TextStyle { fg: Some(ThemeColor::White), bg: Some(ThemeColor::DarkGray), ..plain() });
    assert_eq!(s.link(), TextStyle { fg: Some(ThemeColor::Blue), underlined: true, ..plain() });
    assert_eq!(s.blockquote(), TextStyle { fg: Some(ThemeColor::Yellow), ..plain() });
    assert_eq!(s.heading_meta(), TextStyle { dim: true, ..plain() });
    assert_eq!(s.metadata_block(), TextStyle { fg: Some(ThemeColor::Yellow), ..plain() });
}

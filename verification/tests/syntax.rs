use canopy::syntax::{highlight_line, is_tex};
use canopy::theme::{Rgb, Theme};

#[test]
fn detects_tex_extensions() {
    assert!(is_tex(Some("tex")));
    assert!(is_tex(Some("TEX")));
    assert!(is_tex(Some("bib")));
    assert!(!is_tex(Some("rs")));
    assert!(!is_tex(None));
}

#[test]
fn preserves_character_count() {
    let theme = Theme::pink();
    let line = "\\section{Intro} % a $x$ note";
    let total: usize = highlight_line(line, &theme)
        .iter()
        .map(|s| s.content.chars().count())
        .sum();
    assert_eq!(total, line.chars().count());
}

#[test]
fn comment_runs_to_end_of_line() {
    let theme = Theme::pink();
    let spans = highlight_line("text % comment $here$", &theme);
    // Last span is the whole comment tail.
    let last = spans.last().unwrap();
    assert_eq!(last.content.as_str(), "% comment $here$");
}

#[test]
fn spans_and_styles_of_a_line() {
    let theme = Theme::pink();
    let spans = highlight_line("\\emph{a} $x^2$ \\%", &theme);
    let contents: Vec<&str> = spans.iter().map(|s| s.content.as_str()).collect();
    assert_eq!(contents, vec!["\\emph", "{", "a", "}", " ", "$", "x^2", "$", " ", "\\%"]);
    assert_eq!(spans[0].style.fg, Some(theme.accent));
    assert_eq!(spans[1].style.fg, Some(theme.fg_dim));
    assert_eq!(spans[2].style, theme.s_normal());
    assert_eq!(spans[5].style.fg, Some(theme.accent_alt));
    assert_eq!(spans[6].style.fg, Some(theme.accent_alt)); // inside math
    assert_eq!(spans[8].style, theme.s_normal()); // math closed again
    assert_eq!(spans[9].style.fg, Some(theme.accent)); // escaped percent is a command
    let comment = highlight_line("% c", &theme);
    assert!(comment[0].style.italic);
    assert_eq!(comment[0].style.fg, Some(theme.fg_subtle));
}

#[test]
fn lone_backslash_and_empty_line() {
    let theme = Theme::pink();
    assert!(highlight_line("", &theme).is_empty());
    let spans = highlight_line("a\\", &theme);
    assert_eq!(spans.len(), 2);
    assert_eq!(spans[1].content, "\\");
}

#[test]
fn pink_palette() {
    let t = Theme::pink();
    assert_eq!(t.accent, Rgb { r: 0xff, g: 0x6a, b: 0xc1 });
    assert_eq!(t.bg, Rgb { r: 0x1b, g: 0x1b, b: 0x21 });
    assert_eq!(Theme::default(), t);
    assert!(t.s_accent().bold);
    assert_eq!(t.s_selection().bg, Some(t.bg_sel));
}

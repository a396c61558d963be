use canopy::app::Screen;
use canopy::layout::{
    buffer_dir, buffer_label, centered_rect, cursor_cell, gutter_width, hint, mode_block, pane_styles,
    visible_end, Area,
};
use canopy::modes::Mode;
use canopy::theme::Theme;

#[test]
fn overlay_is_centred() {
    let outer = Area { x: 0, y: 0, width: 100, height: 40 };
    assert_eq!(centered_rect(80, 24, outer), Area { x: 10, y: 8, width: 80, height: 24 });
}

#[test]
fn overlay_keeps_a_minimum_size() {
    let outer = Area { x: 0, y: 0, width: 22, height: 8 };
    assert_eq!(centered_rect(5, 3, outer), Area { x: 1, y: 1, width: 20, height: 6 });
}

#[test]
fn overlay_stays_inside_a_small_outer() {
    let outer = Area { x: 5, y: 5, width: 10, height: 4 };
    assert_eq!(centered_rect(80, 24, outer), Area { x: 5, y: 5, width: 10, height: 4 });
    let outer = Area { x: 3, y: 2, width: 15, height: 5 };
    assert_eq!(centered_rect(80, 24, outer), Area { x: 3, y: 2, width: 15, height: 5 });
}

#[test]
fn overlay_leaves_a_margin() {
    let outer = Area { x: 0, y: 0, width: 50, height: 20 };
    assert_eq!(centered_rect(80, 32, outer), Area { x: 2, y: 1, width: 46, height: 18 });
}

#[test]
fn gutter_fits_the_line_count() {
    assert_eq!(gutter_width(0), 2);
    assert_eq!(gutter_width(9), 2);
    assert_eq!(gutter_width(10), 3);
    assert_eq!(gutter_width(12345), 6);
    assert_eq!(gutter_width(usize::MAX), (usize::MAX.to_string().len() + 1) as u16);
}

#[test]
fn visible_lines_stop_at_the_buffer_end() {
    assert_eq!(visible_end(5, 10, 8), 8);
    assert_eq!(visible_end(0, 10, 50), 10);
    assert_eq!(visible_end(60, 10, 50), 60);
}

#[test]
fn cursor_cell_follows_scroll_and_clamps() {
    let inner = Area { x: 1, y: 2, width: 30, height: 10 };
    assert_eq!(cursor_cell(inner, 3, 5, 7, 4), Some((8, 4)));
    assert_eq!(cursor_cell(inner, 3, 5, 4, 4), None);
    assert_eq!(cursor_cell(inner, 3, 5, 15, 4), None);
    assert_eq!(cursor_cell(inner, 3, 5, 14, 100), Some((30, 11)));
}

#[test]
fn buffer_labels() {
    assert_eq!(buffer_label(Some("/a/b/main.tex"), true), "main.tex ●");
    assert_eq!(buffer_label(Some("notes.tex"), false), "notes.tex");
    assert_eq!(buffer_label(Some("/"), false), "[scratch]");
    assert_eq!(buffer_label(None, false), "[scratch]");
}

#[test]
fn mode_blocks_and_hints() {
    let t = Theme::pink();
    let (label, s) = mode_block(&t, &Screen::Browser, None);
    assert_eq!(label, "BROWSE");
    assert_eq!((s.fg, s.bg, s.bold), (Some(t.bg), Some(t.fg_subtle), true));
    let editor = Screen::Editor { show_preview: false };
    assert_eq!(mode_block(&t, &editor, None).0, "NORMAL");
    let (label, s) = mode_block(&t, &editor, Some(Mode::Insert));
    assert_eq!(label, "INSERT");
    assert!(s.reversed && s.bold);
    assert_eq!(s.fg, Some(t.accent));
    assert_eq!(mode_block(&t, &editor, Some(Mode::Command)).1.bg, Some(t.info));
    assert!(hint(&Screen::Browser).contains("Enter open"));
    assert!(hint(&editor).contains("Ctrl-B compile"));
}

#[test]
fn focused_panes_are_accented() {
    let t = Theme::pink();
    let (border, title) = pane_styles(&t, true);
    assert_eq!((border.fg, border.bold), (Some(t.border_focus), true));
    assert_eq!((title.fg, title.bold), (Some(t.accent), true));
    let (border, title) = pane_styles(&t, false);
    assert_eq!((border.fg, border.bold), (Some(t.border), false));
    assert_eq!((title.fg, title.bold), (Some(t.fg_dim), false));
}

#[test]
fn buffer_dirs() {
    assert_eq!(buffer_dir(Some("/a/b/main.tex")), Some("/a/b".to_string()));
    assert_eq!(buffer_dir(Some("main.tex")), Some(String::new()));
    assert_eq!(buffer_dir(Some("/")), None);
    assert_eq!(buffer_dir(None), None);
}

use canopy::editor::Editor;

fn typed(s: &str) -> Editor {
    let mut e = Editor::scratch();
    for ch in s.chars() {
        if ch == '\n' {
            e.insert_newline();
        } else {
            e.insert_char(ch);
        }
    }
    e
}

#[test]
fn insert_tracks_text_and_cursor() {
    let e = typed("hi\nx");
    assert_eq!(e.rope().to_string(), "hi\nx");
    assert_eq!(e.cursor_line_col(), (1, 1));
    assert!(e.is_dirty());
}

#[test]
fn vertical_move_keeps_desired_column() {
    let mut e = typed("hi\nx");
    e.move_end(); // (1,1) already at end of "x"
    e.move_up(); // up to "hi"; desired col 1 → (0,1)
    assert_eq!(e.cursor_line_col(), (0, 1));
    e.move_end(); // (0,2), desired col 2
    e.move_down(); // "x" is shorter; clamp to (1,1)
    assert_eq!(e.cursor_line_col(), (1, 1));
}

#[test]
fn home_and_end() {
    let mut e = typed("hello");
    e.move_home();
    assert_eq!(e.cursor_line_col(), (0, 0));
    e.move_end();
    assert_eq!(e.cursor_line_col(), (0, 5));
}

#[test]
fn backspace_joins_lines() {
    let mut e = typed("hi\nx"); // cursor at (1,1)
    e.backspace(); // remove 'x'
    assert_eq!(e.rope().to_string(), "hi\n");
    assert_eq!(e.cursor_line_col(), (1, 0));
    e.backspace(); // remove newline, joining lines
    assert_eq!(e.rope().to_string(), "hi");
    assert_eq!(e.cursor_line_col(), (0, 2));
}

#[test]
fn delete_forward_removes_under_cursor() {
    let mut e = typed("ab");
    e.move_home();
    e.delete_forward();
    assert_eq!(e.rope().to_string(), "b");
    assert_eq!(e.cursor_line_col(), (0, 0));
}

#[test]
fn open_edit_save_roundtrips() {
    // The file's contents as the front end would read and write them.
    let mut disk = String::from("alpha\nbeta");

    let mut e = Editor::open("/tmp/canopy-test/t.tex", &disk);
    assert_eq!(e.rope().to_string(), "alpha\nbeta");
    assert!(!e.is_dirty());

    e.insert_char('Z'); // at (0,0)
    assert!(e.is_dirty());
    let (target, text) = e.save_target().unwrap();
    assert_eq!(target, "/tmp/canopy-test/t.tex");
    disk = text;
    e.save(true).unwrap();
    assert!(!e.is_dirty());
    assert_eq!(disk, "Zalpha\nbeta");
}

#[test]
fn failed_write_keeps_buffer_dirty() {
    let mut e = Editor::open("/tmp/t.tex", "alpha");
    e.insert_char('Z');
    assert_eq!(e.save(false).unwrap_err(), "writing /tmp/t.tex");
    assert!(e.is_dirty());
}

#[test]
fn scratch_buffer_cannot_be_saved() {
    let mut e = Editor::scratch();
    assert_eq!(e.save_target().unwrap_err(), "buffer has no file path to save to");
    assert_eq!(e.save(true).unwrap_err(), "buffer has no file path to save to");
}

#[test]
fn up_after_down_returns_to_column() {
    let mut e = Editor::open("f.tex", "abcdef\nxy\nlonger line");
    e.move_right();
    e.move_right();
    e.move_right(); // (0,3), desired 3
    e.move_down(); // "xy" clamps to (1,2)
    assert_eq!(e.cursor_line_col(), (1, 2));
    e.move_down(); // desired column 3 is remembered
    assert_eq!(e.cursor_line_col(), (2, 3));
    e.move_up();
    e.move_up();
    assert_eq!(e.cursor_line_col(), (0, 3));
}

#[test]
fn backspace_undoes_insert() {
    let mut e = Editor::open("f.tex", "ab\ncd");
    e.move_down();
    e.move_right();
    let before = (e.rope().to_string(), e.cursor_line_col());
    e.insert_char('Q');
    e.backspace();
    assert_eq!((e.rope().to_string(), e.cursor_line_col()), before);
}

#[test]
fn delete_forward_undoes_insert() {
    let mut e = Editor::open("f.tex", "ab\ncd");
    e.move_right();
    let before = (e.rope().to_string(), e.cursor_line_col());
    e.insert_char('Q');
    e.move_left();
    e.delete_forward();
    assert_eq!((e.rope().to_string(), e.cursor_line_col()), before);
}

#[test]
fn ensure_visible_scrolls_to_cursor() {
    let mut text = String::new();
    for i in 0..50 {
        text.push_str(&format!("line {i}\n"));
    }
    let mut e = Editor::open("f.tex", &text);
    e.page(30); // line 30
    e.ensure_visible(10);
    assert_eq!(e.scroll_row(), 21);
    e.page(-25); // line 5
    e.ensure_visible(10);
    assert_eq!(e.scroll_row(), 5);
    e.ensure_visible(0); // an empty viewport changes nothing
    assert_eq!(e.scroll_row(), 5);
}

#[test]
fn page_clamps_to_buffer() {
    let mut e = Editor::open("f.tex", "a\nb\nc");
    e.page(100);
    assert_eq!(e.cursor_line_col(), (2, 0));
    e.page(-100);
    assert_eq!(e.cursor_line_col(), (0, 0));
}

#[test]
fn crlf_counts_as_one_break() {
    let mut e = Editor::open("f.tex", "ab\r\ncd");
    e.move_down();
    assert_eq!(e.cursor_line_col(), (1, 0));
    e.move_end();
    assert_eq!(e.cursor_line_col(), (1, 2));
    e.move_up(); // the CR counts in line 0's length: column 2 is the CR
    assert_eq!(e.cursor_line_col(), (0, 2));
}

#[test]
fn moves_at_buffer_edges_stay_put() {
    let mut e = Editor::open("f.tex", "ab");
    e.move_left();
    e.move_up();
    assert_eq!(e.cursor_line_col(), (0, 0));
    e.move_end();
    e.move_right();
    e.move_down();
    assert_eq!(e.cursor_line_col(), (0, 2));
    e.delete_forward();
    assert_eq!(e.rope().to_string(), "ab");
    assert!(!e.is_dirty());
}

#[test]
fn clamping_onto_a_cr_ended_line_lands_on_the_next() {
    // Line 1 is "c\r": its CR counts in its length, so column 2 on it is the
    // start of line 2, and moving back up cannot return to line 0.
    let mut e = Editor::open("f.tex", "ab\nc\rd");
    e.move_end(); // (0,2)
    e.move_down();
    assert_eq!(e.cursor_line_col(), (2, 0));
    e.move_up();
    assert_eq!(e.cursor_line_col(), (2, 0));
}

#[test]
fn moves_never_edit() {
    let mut e = Editor::open("f.tex", "one\ntwo\nthree");
    e.move_down();
    e.move_end();
    e.move_right();
    e.page(5);
    e.move_home();
    e.move_up();
    e.move_left();
    assert_eq!(e.rope().to_string(), "one\ntwo\nthree");
    assert!(!e.is_dirty());
    assert_eq!(e.path(), Some("f.tex"));
}

#[test]
fn sticky_column_over_a_cr_line_that_fits() {
    // Line 1 is "xy\r": column 1 fits inside its text, so down and up return.
    let mut e = Editor::open("f.tex", "abc\nxy\rz\nq");
    e.move_right(); // (0,1)
    e.move_down();
    assert_eq!(e.cursor_line_col(), (1, 1));
    e.move_up();
    assert_eq!(e.cursor_line_col(), (0, 1));
}

use canopy::app::{App, Effect, Key, KeyCode, Screen};
use canopy::browser::{Browser, Entry};
use canopy::compile::{CompileOutcome, CompileStatus};
use canopy::config::Config;
use canopy::editor::Editor;
use canopy::modes::Mode;

fn config() -> Config {
    Config::from_cli(
        "img".to_string(),
        "pdflatex".to_string(),
        40,
        1 << 29,
        "model".to_string(),
        "http://127.0.0.1:11434".to_string(),
        true,
    )
}

fn key(code: KeyCode) -> Key {
    Key { code, ctrl: false, release: false }
}

fn ctrl(c: char) -> Key {
    Key { code: KeyCode::Char(c), ctrl: true, release: false }
}

fn browser() -> Browser {
    Browser::new(
        "/p".to_string(),
        vec![
            Entry { name: "sub".to_string(), path: "/p/sub".to_string(), is_dir: true },
            Entry { name: "a.tex".to_string(), path: "/p/a.tex".to_string(), is_dir: false },
        ],
    )
}

#[test]
fn starts_on_browser_or_editor() {
    let app = App::new(config(), browser(), None, "/p");
    assert!(matches!(app.screen, Screen::Browser));
    assert_eq!(app.status, "select a file to edit");

    let app = App::new(config(), browser(), Some(Editor::open("/p/a.tex", "x")), "/p/a.tex");
    assert!(matches!(app.screen, Screen::Editor { show_preview: false }));
    assert_eq!(app.status, "opened /p/a.tex");
}

#[test]
fn browser_keys_request_io() {
    let mut app = App::new(config(), browser(), None, "/p");
    assert!(matches!(app.handle_key(key(KeyCode::Char('j'))), Effect::Nothing));
    match app.handle_key(key(KeyCode::Enter)) {
        Effect::OpenFile(p) => assert_eq!(p, "/p/a.tex"),
        _ => panic!("expected a file to open"),
    }
    app.open_file("/p/a.tex", "hello");
    assert!(matches!(app.screen, Screen::Editor { show_preview: false }));
    assert_eq!(app.status, "opened /p/a.tex");

    let mut app = App::new(config(), browser(), None, "/p");
    assert!(matches!(app.handle_key(key(KeyCode::Enter)), Effect::ListDir));
    assert_eq!(app.browser.cwd(), "/p/sub");
    assert!(matches!(app.handle_key(key(KeyCode::Backspace)), Effect::ListDir));
    assert_eq!(app.browser.cwd(), "/p");
    assert!(matches!(app.handle_key(key(KeyCode::Char('q'))), Effect::Nothing));
    assert!(app.should_quit);
}

#[test]
fn quit_keys_and_releases() {
    let mut app = App::new(config(), browser(), Some(Editor::open("/p/a.tex", "")), "/p/a.tex");
    let release = Key { code: KeyCode::Char('x'), ctrl: false, release: true };
    app.handle_key(release);
    assert_eq!(app.editor.as_ref().unwrap().rope().to_string(), "");
    app.handle_key(ctrl('q'));
    assert!(app.should_quit);
}

#[test]
fn editor_keys_edit_and_save() {
    let mut app = App::new(config(), browser(), Some(Editor::open("/p/a.tex", "")), "/p/a.tex");
    for c in "ab".chars() {
        app.handle_key(key(KeyCode::Char(c)));
    }
    app.handle_key(key(KeyCode::Tab));
    app.handle_key(key(KeyCode::Enter));
    assert_eq!(app.editor.as_ref().unwrap().rope().to_string(), "ab  \n");
    assert!(matches!(app.handle_key(ctrl('s')), Effect::Save));
    app.saved(Ok(()));
    assert_eq!(app.status, "saved");
    app.saved(Err("disk full".to_string()));
    assert_eq!(app.status, "save failed: disk full");
    app.handle_key(ctrl('p'));
    assert!(matches!(app.screen, Screen::Editor { show_preview: true }));
    app.handle_key(ctrl('p'));
    assert!(matches!(app.screen, Screen::Editor { show_preview: false }));
    app.handle_key(key(KeyCode::Esc));
    assert!(matches!(app.screen, Screen::Browser));
}

#[test]
fn compile_flow() {
    let mut app = App::new(config(), browser(), Some(Editor::scratch()), "");
    assert!(matches!(app.handle_key(ctrl('b')), Effect::Nothing));
    assert_eq!(app.status, "save the file before compiling");

    let mut app = App::new(config(), browser(), Some(Editor::open("/p/paper/main.tex", "x")), "");
    assert!(matches!(app.handle_key(ctrl('b')), Effect::SaveForCompile));
    assert!(app.saved_for_compile(Err("ro".to_string())).is_none());
    assert_eq!(app.status, "save failed: ro");
    let req = app.saved_for_compile(Ok(())).unwrap();
    assert_eq!(req.work_dir, "/p/paper");
    assert_eq!(req.main_tex, "main.tex");
    assert!(app.compiling);
    assert_eq!(app.status, "compiling…");
    app.compile_finished(Ok(CompileOutcome {
        status: CompileStatus::Timeout,
        log: String::new(),
        pdf_path: None,
        duration_ms: 5,
    }));
    assert!(!app.compiling);
    assert_eq!(app.status, "compile Timeout");
    app.compile_finished(Err("no docker".to_string()));
    assert_eq!(app.status, "compile error: no docker");
}

#[test]
fn frame_fitting_scrolls_editor() {
    let text: String = (0..40).map(|i| format!("{i}\n")).collect();
    let mut app = App::new(config(), browser(), Some(Editor::open("/p/a.tex", &text)), "/p/a.tex");
    app.handle_key(key(KeyCode::PageDown));
    app.fit_to_frame(13);
    assert_eq!(app.editor.as_ref().unwrap().scroll_row(), 11);
    app.docker_unreachable();
    assert_eq!(app.status, "note: Docker not reachable — compile disabled");
    app.input_error("bad");
    assert_eq!(app.status, "input error: bad");
    app.input_closed();
    assert!(app.should_quit);
}

#[test]
fn mode_labels() {
    assert_eq!(Mode::Normal.label(), "NORMAL");
    assert_eq!(Mode::Insert.label(), "INSERT");
    assert_eq!(Mode::Command.label(), "COMMAND");
}

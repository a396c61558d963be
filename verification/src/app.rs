//! The application state machine: two screens — a file `Browser` and the
//! `Editor` (with an optional PDF preview pane) — driven by keys and by the
//! results of work the front end does on the state machine's behalf.
//!
//! Each key yields an `Effect`: nothing, or an I/O request (re-read the
//! current directory, read a file, save, save before compiling). The front
//! end performs it and reports back (`open_file`, `saved`,
//! `saved_for_compile`, `compile_finished`), so every decision stays here.
use vstd::prelude::*;

use crate::browser::{Activate, Browser, BrowserModel};
use crate::compile::{CompileOutcome, CompileRequest, CompileStatus};
use crate::config::Config;
use crate::editor::{Editor, EditorModel};
use crate::paths::{dir_of, file_name_of, parent_dir, parent_of, path_file_name};

verus! {

pub enum Screen {
    Browser,
    Editor { show_preview: bool },
}

/// A key, as far as the state machine cares.
#[derive(Clone, Copy, Debug, PartialEq, Eq, Structural)]
pub enum KeyCode {
    Char(char),
    Up,
    Down,
    Left,
    Right,
    Home,
    End,
    PageUp,
    PageDown,
    Enter,
    Tab,
    Backspace,
    Delete,
    Esc,
    Other,
}

/// A key event: its code, whether Control was held, and whether it is a
/// key release (which is ignored).
#[derive(Clone, Copy, Debug, PartialEq, Eq, Structural)]
pub struct Key {
    pub code: KeyCode,
    pub ctrl: bool,
    pub release: bool,
}

/// Work the front end must do after a key.
pub enum Effect {
    Nothing,
    /// Re-read the browser's current directory and hand it to
    /// `Browser::refresh`.
    ListDir,
    /// Read this file and hand its text to `App::open_file`.
    OpenFile(String),
    /// Write the editor out (`Editor::save_target`, then `Editor::save`) and
    /// report with `App::saved`.
    Save,
    /// The same, reporting with `App::saved_for_compile`.
    SaveForCompile,
}

pub enum EffectModel {
    Nothing,
    ListDir,
    OpenFile(Seq<char>),
    Save,
    SaveForCompile,
}

impl View for Effect {
    type V = EffectModel;

    open spec fn view(&self) -> EffectModel {
        match self {
            Effect::Nothing => EffectModel::Nothing,
            Effect::ListDir => EffectModel::ListDir,
            Effect::OpenFile(p) => EffectModel::OpenFile(p@),
            Effect::Save => EffectModel::Save,
            Effect::SaveForCompile => EffectModel::SaveForCompile,
        }
    }
}

pub struct App {
    pub config: Config,
    pub screen: Screen,
    pub browser: Browser,
    pub editor: Option<Editor>,
    pub should_quit: bool,
    pub status: String,
    /// A compile is running and its result is awaited.
    pub compiling: bool,
}

/// The abstract state of the application.
pub struct AppModel {
    pub screen: Screen,
    pub browser: BrowserModel,
    pub editor: Option<EditorModel>,
    pub should_quit: bool,
    pub status: Seq<char>,
    pub compiling: bool,
}

pub open spec fn editor_view(e: Option<Editor>) -> Option<EditorModel> {
    match e {
        Some(ed) => Some(ed@),
        None => None,
    }
}

impl View for App {
    type V = AppModel;

    open spec fn view(&self) -> AppModel {
        AppModel {
            screen: self.screen,
            browser: self.browser@,
            editor: editor_view(self.editor),
            should_quit: self.should_quit,
            status: self.status@,
            compiling: self.compiling,
        }
    }
}

pub open spec fn is_quit_key(key: Key) -> bool {
    key.ctrl && (key.code == KeyCode::Char('c') || key.code == KeyCode::Char('q'))
}

// ─── Browser model steps used by the key spec ───────────────────────────

impl BrowserModel {
    pub open spec fn selection_valid(self) -> bool {
        0 <= self.selected < self.entries.len()
    }

    /// After Enter: a selected directory becomes the current one.
    pub open spec fn activated(self) -> BrowserModel {
        if self.selection_valid() && self.entries[self.selected].is_dir {
            BrowserModel { cwd: self.entries[self.selected].path@, selected: 0, ..self }
        } else {
            self
        }
    }

    /// After going up: the parent directory, if there is one.
    pub open spec fn went_up(self) -> BrowserModel {
        match parent_of(self.cwd) {
            Some(p) => BrowserModel { cwd: p, selected: 0, ..self },
            None => self,
        }
    }
}

/// Status texts.
pub open spec fn msg_opened(path: Seq<char>) -> Seq<char> {
    "opened "@ + path
}

pub open spec fn msg_select() -> Seq<char> {
    "select a file to edit"@
}

pub open spec fn msg_need_path() -> Seq<char> {
    "save the file before compiling"@
}

pub open spec fn status_name(s: CompileStatus) -> Seq<char> {
    match s {
        CompileStatus::Success => "Success"@,
        CompileStatus::Failed => "Failed"@,
        CompileStatus::Timeout => "Timeout"@,
    }
}

impl AppModel {
    pub open spec fn quit(self) -> AppModel {
        AppModel { should_quit: true, ..self }
    }

    pub open spec fn with_browser(self, b: BrowserModel) -> AppModel {
        AppModel { browser: b, ..self }
    }

    pub open spec fn with_editor(self, e: EditorModel) -> AppModel {
        AppModel { editor: Some(e), ..self }
    }

    /// A key on the browser screen.
    pub open spec fn browser_key(self, key: Key) -> (AppModel, EffectModel) {
        let b = self.browser;
        match key.code {
            KeyCode::Char('q') => (self.quit(), EffectModel::Nothing),
            KeyCode::Up | KeyCode::Char('k') => (self.with_browser(b.selected_prev()), EffectModel::Nothing),
            KeyCode::Down | KeyCode::Char('j') => (
                self.with_browser(b.selected_next()),
                EffectModel::Nothing,
            ),
            KeyCode::Backspace | KeyCode::Left | KeyCode::Char('h') => (
                self.with_browser(b.went_up()),
                if parent_of(b.cwd) is Some {
                    EffectModel::ListDir
                } else {
                    EffectModel::Nothing
                },
            ),
            KeyCode::Enter | KeyCode::Char('l') => (
                self.with_browser(b.activated()),
                if !b.selection_valid() {
                    EffectModel::Nothing
                } else if b.entries[b.selected].is_dir {
                    EffectModel::ListDir
                } else {
                    EffectModel::OpenFile(b.entries[b.selected].path@)
                },
            ),
            _ => (self, EffectModel::Nothing),
        }
    }

    /// Ctrl-B: compiling needs a file to save first.
    pub open spec fn start_compile(self) -> (AppModel, EffectModel) {
        match self.editor {
            Some(e) if e.path is Some => (self, EffectModel::SaveForCompile),
            _ => (AppModel { status: msg_need_path(), ..self }, EffectModel::Nothing),
        }
    }

    pub open spec fn toggled_preview(self) -> AppModel {
        match self.screen {
            Screen::Editor { show_preview } => AppModel {
                screen: Screen::Editor { show_preview: !show_preview },
                ..self
            },
            Screen::Browser => self,
        }
    }

    /// A key on the editor screen.
    pub open spec fn editor_key(self, key: Key) -> (AppModel, EffectModel) {
        if key.ctrl {
            match key.code {
                KeyCode::Char('s') => (self, if self.editor is Some {
                    EffectModel::Save
                } else {
                    EffectModel::Nothing
                }),
                KeyCode::Char('b') => self.start_compile(),
                KeyCode::Char('p') => (self.toggled_preview(), EffectModel::Nothing),
                _ => (self, EffectModel::Nothing),
            }
        } else {
            match self.editor {
                None => (self, EffectModel::Nothing),
                Some(e) => (
                    match key.code {
                        KeyCode::Esc => AppModel { screen: Screen::Browser, ..self },
                        KeyCode::Up => self.with_editor(e.moved_up()),
                        KeyCode::Down => self.with_editor(e.moved_down()),
                        KeyCode::Left => self.with_editor(e.moved_left()),
                        KeyCode::Right => self.with_editor(e.moved_right()),
                        KeyCode::Home => self.with_editor(e.moved_home()),
                        KeyCode::End => self.with_editor(e.moved_end()),
                        KeyCode::PageUp => self.with_editor(e.paged(-20)),
                        KeyCode::PageDown => self.with_editor(e.paged(20)),
                        KeyCode::Enter => self.with_editor(e.inserted('\n')),
                        KeyCode::Tab => self.with_editor(e.inserted(' ').inserted(' ')),
                        KeyCode::Backspace => self.with_editor(e.backspaced()),
                        KeyCode::Delete => self.with_editor(e.deleted_forward()),
                        KeyCode::Char(ch) => self.with_editor(e.inserted(ch)),
                        _ => self,
                    },
                    EffectModel::Nothing,
                ),
            }
        }
    }

    /// The state and effect after a key: releases are ignored, Ctrl-C and
    /// Ctrl-Q quit from anywhere, other keys go to the current screen.
    pub open spec fn after_key(self, key: Key) -> (AppModel, EffectModel) {
        if key.release {
            (self, EffectModel::Nothing)
        } else if is_quit_key(key) {
            (self.quit(), EffectModel::Nothing)
        } else {
            match self.screen {
                Screen::Browser => self.browser_key(key),
                Screen::Editor { .. } => self.editor_key(key),
            }
        }
    }
}

fn concat(a: &str, b: &str) -> (r: String)
    ensures
        r@ == a@ + b@,
{
    let mut s = String::from_str(a);
    s.append(b);
    s
}

impl App {
    pub open spec fn wf(&self) -> bool {
        &&& self.browser.wf()
        &&& match self.editor {
            Some(e) => e.wf(),
            None => true,
        }
    }

    /// The application at start-up: on the editor when a file was opened
    /// (`start_path` is what was opened), else on the browser.
    pub fn new(config: Config, browser: Browser, editor: Option<Editor>, start_path: &str) -> (a:
        Self)
        requires
            browser.wf(),
            editor matches Some(e) ==> e.wf(),
        ensures
            a.wf(),
            a.config == config,
            a@.browser == browser@,
            a@.editor == editor_view(editor),
            !a@.should_quit,
            !a@.compiling,
            editor is Some ==> a@.screen == (Screen::Editor { show_preview: false }) && a@.status
                == msg_opened(start_path@),
            editor is None ==> a@.screen == Screen::Browser && a@.status == msg_select(),
    {
        let (screen, status) = match &editor {
            Some(_) => (Screen::Editor { show_preview: false }, concat("opened ", start_path)),
            None => (Screen::Browser, String::from_str("select a file to edit")),
        };
        App { config, screen, browser, editor, should_quit: false, status, compiling: false }
    }

    /// Note at start-up that compiling will not work.
    pub fn docker_unreachable(&mut self)
        ensures
            final(self)@ == (AppModel {
                status: "note: Docker not reachable — compile disabled"@,
                ..old(self)@
            }),
            final(self).config == old(self).config,
    {
        self.status = String::from_str("note: Docker not reachable — compile disabled");
    }

    /// The input stream failed with this message.
    pub fn input_error(&mut self, msg: &str)
        ensures
            final(self)@ == (AppModel { status: "input error: "@ + msg@, ..old(self)@ }),
            final(self).config == old(self).config,
    {
        self.status = concat("input error: ", msg);
    }

    /// The input stream ended: quit.
    pub fn input_closed(&mut self)
        ensures
            final(self)@ == old(self)@.quit(),
            final(self).config == old(self).config,
    {
        self.should_quit = true;
    }

    /// Before drawing a frame of `height` rows: keep the editor's cursor in
    /// view (the body is the frame minus the borders and status line).
    pub fn fit_to_frame(&mut self, height: u16)
        requires
            old(self).wf(),
        ensures
            final(self).wf(),
            final(self).config == old(self).config,
            final(self)@ == (match (old(self)@.screen, old(self)@.editor) {
                (Screen::Editor { .. }, Some(e)) => old(self)@.with_editor(
                    e.made_visible(if height >= 3 {
                        height - 3
                    } else {
                        0
                    }),
                ),
                _ => old(self)@,
            }),
    {
        let rows: usize = if height >= 3 {
            (height - 3) as usize
        } else {
            0
        };
        match (&self.screen, &mut self.editor) {
            (Screen::Editor { .. }, Some(editor)) => editor.ensure_visible(rows),
            _ => {},
        }
    }

    /// Handle one key; returns the work the front end must do next.
    pub fn handle_key(&mut self, key: Key) -> (e: Effect)
        requires
            old(self).wf(),
        ensures
            final(self).wf(),
            final(self).config == old(self).config,
            final(self)@ == old(self)@.after_key(key).0,
            e@ == old(self)@.after_key(key).1,
    {
        if key.release {
            return Effect::Nothing;
        }
        if key.ctrl && (key.code == KeyCode::Char('c') || key.code == KeyCode::Char('q')) {
            self.should_quit = true;
            return Effect::Nothing;
        }
        match self.screen {
            Screen::Browser => self.handle_browser_key(key),
            Screen::Editor { .. } => self.handle_editor_key(key),
        }
    }

    fn handle_browser_key(&mut self, key: Key) -> (e: Effect)
        requires
            old(self).wf(),
        ensures
            final(self).wf(),
            final(self).config == old(self).config,
            final(self)@ == old(self)@.browser_key(key).0,
            e@ == old(self)@.browser_key(key).1,
    {
        match key.code {
            KeyCode::Char('q') => {
                self.should_quit = true;
                Effect::Nothing
            },
            KeyCode::Up | KeyCode::Char('k') => {
                self.browser.select_prev();
                Effect::Nothing
            },
            KeyCode::Down | KeyCode::Char('j') => {
                self.browser.select_next();
                Effect::Nothing
            },
            KeyCode::Backspace | KeyCode::Left | KeyCode::Char('h') => {
                if self.browser.go_up() {
                    Effect::ListDir
                } else {
                    Effect::Nothing
                }
            },
            KeyCode::Enter | KeyCode::Char('l') => {
                let was_dir = self.browser.selected_is_dir();
                match self.browser.activate() {
                    Activate::OpenFile(path) => Effect::OpenFile(path),
                    Activate::Navigated => if was_dir == Some(true) {
                        Effect::ListDir
                    } else {
                        Effect::Nothing
                    },
                }
            },
            _ => Effect::Nothing,
        }
    }

    fn handle_editor_key(&mut self, key: Key) -> (e: Effect)
        requires
            old(self).wf(),
        ensures
            final(self).wf(),
            final(self).config == old(self).config,
            final(self)@ == old(self)@.editor_key(key).0,
            e@ == old(self)@.editor_key(key).1,
    {
        if key.ctrl {
            return match key.code {
                KeyCode::Char('s') => if self.editor.is_some() {
                    Effect::Save
                } else {
                    Effect::Nothing
                },
                KeyCode::Char('b') => self.start_compile(),
                KeyCode::Char('p') => {
                    self.toggle_preview();
                    Effect::Nothing
                },
                _ => Effect::Nothing,
            };
        }
        match &mut self.editor {
            None => {},
            Some(editor) => match key.code {
                KeyCode::Esc => {},
                KeyCode::Up => editor.move_up(),
                KeyCode::Down => editor.move_down(),
                KeyCode::Left => editor.move_left(),
                KeyCode::Right => editor.move_right(),
                KeyCode::Home => editor.move_home(),
                KeyCode::End => editor.move_end(),
                KeyCode::PageUp => editor.page(-20),
                KeyCode::PageDown => editor.page(20),
                KeyCode::Enter => editor.insert_newline(),
                KeyCode::Tab => {
                    editor.insert_char(' ');
                    editor.insert_char(' ');
                },
                KeyCode::Backspace => editor.backspace(),
                KeyCode::Delete => editor.delete_forward(),
                KeyCode::Char(ch) => editor.insert_char(ch),
                _ => {},
            },
        }
        if key.code == KeyCode::Esc && self.editor.is_some() {
            self.screen = Screen::Browser;
        }
        Effect::Nothing
    }

    fn toggle_preview(&mut self)
        ensures
            final(self)@ == old(self)@.toggled_preview(),
            final(self).config == old(self).config,
            final(self).browser == old(self).browser,
            final(self).editor == old(self).editor,
    {
        if let Screen::Editor { show_preview } = self.screen {
            self.screen = Screen::Editor { show_preview: !show_preview };
        }
    }

    /// Ctrl-B: ask for a save before compiling, or explain why not.
    fn start_compile(&mut self) -> (e: Effect)
        ensures
            final(self)@ == old(self)@.start_compile().0,
            e@ == old(self)@.start_compile().1,
            final(self).config == old(self).config,
            final(self).browser == old(self).browser,
            final(self).editor == old(self).editor,
    {
        let has_path = match &self.editor {
            Some(e) => e.path().is_some(),
            None => false,
        };
        if has_path {
            Effect::SaveForCompile
        } else {
            self.status = String::from_str("save the file before compiling");
            Effect::Nothing
        }
    }

    /// The file at `path` was read (its text is `text`): edit it.
    pub fn open_file(&mut self, path: &str, text: &str)
        requires
            old(self).wf(),
        ensures
            final(self).wf(),
            final(self).config == old(self).config,
            final(self)@ == (AppModel {
                editor: Some(
                    EditorModel {
                        text: text@,
                        cursor: 0,
                        scroll_row: 0,
                        desired_col: 0,
                        path: Some(path@),
                        dirty: false,
                    },
                ),
                screen: Screen::Editor { show_preview: false },
                status: msg_opened(path@),
                ..old(self)@
            }),
    {
        self.editor = Some(Editor::open(path, text));
        self.screen = Screen::Editor { show_preview: false };
        self.status = concat("opened ", path);
    }

    /// The editor was written out (`Ok`) or not (`Err` with the reason).
    pub fn saved(&mut self, result: Result<(), String>)
        ensures
            final(self).config == old(self).config,
            final(self)@ == (AppModel {
                status: match result {
                    Ok(()) => "saved"@,
                    Err(m) => "save failed: "@ + m@,
                },
                ..old(self)@
            }),
    {
        self.status = match result {
            Ok(()) => String::from_str("saved"),
            Err(m) => concat("save failed: ", m.as_str()),
        };
    }

    /// The save before a compile finished. On success, the compile of the
    /// editor's file in its directory starts.
    pub fn saved_for_compile(&mut self, result: Result<(), String>) -> (req: Option<
        CompileRequest,
    >)
        ensures
            final(self).config == old(self).config,
            final(self)@.screen == old(self)@.screen,
            final(self)@.browser == old(self)@.browser,
            final(self)@.editor == old(self)@.editor,
            final(self)@.should_quit == old(self)@.should_quit,
            match result {
                Err(m) => req is None && final(self)@.status == "save failed: "@ + m@
                    && final(self)@.compiling == old(self)@.compiling,
                Ok(()) => match old(self)@.editor {
                    Some(e) if e.path is Some => {
                        let p = e.path.unwrap();
                        &&& req matches Some(r) && r.work_dir@ == dir_of(p) && r.main_tex@ == (match file_name_of(p) {
                            Some(n) => n,
                            None => Seq::empty(),
                        })
                        &&& final(self)@.compiling
                        &&& final(self)@.status == "compiling…"@
                    },
                    _ => req is None && final(self)@.status == msg_need_path()
                        && final(self)@.compiling == old(self)@.compiling,
                },
            },
    {
        match result {
            Err(m) => {
                self.status = concat("save failed: ", m.as_str());
                None
            },
            Ok(()) => {
                let path = match &self.editor {
                    Some(e) => match e.path() {
                        Some(p) => Some(String::from_str(p)),
                        None => None,
                    },
                    None => None,
                };
                match path {
                    None => {
                        self.status = String::from_str("save the file before compiling");
                        None
                    },
                    Some(p) => {
                        let work_dir = parent_dir(p.as_str());
                        let main_tex = match path_file_name(p.as_str()) {
                            Some(n) => n,
                            None => String::new(),
                        };
                        self.compiling = true;
                        self.status = String::from_str("compiling…");
                        Some(CompileRequest { work_dir, main_tex })
                    },
                }
            },
        }
    }

    /// A compile ended with an outcome or an error message.
    pub fn compile_finished(&mut self, outcome: Result<CompileOutcome, String>)
        ensures
            final(self).config == old(self).config,
            final(self)@ == (AppModel {
                compiling: false,
                status: match outcome {
                    Ok(o) => "compile "@ + status_name(o.status),
                    Err(m) => "compile error: "@ + m@,
                },
                ..old(self)@
            }),
    {
        self.compiling = false;
        self.status = match outcome {
            Ok(o) => concat(
                "compile ",
                match o.status {
                    CompileStatus::Success => "Success",
                    CompileStatus::Failed => "Failed",
                    CompileStatus::Timeout => "Timeout",
                },
            ),
            Err(m) => concat("compile error: ", m.as_str()),
        };
    }
}

// ─── Laws ───────────────────────────────────────────────────────────────

/// Ctrl-C and Ctrl-Q quit from any screen and ask for no further work.
pub proof fn law_quit_keys_quit(m: AppModel, key: Key)
    requires
        !key.release,
        is_quit_key(key),
    ensures
        m.after_key(key).0.should_quit,
        m.after_key(key).1 is Nothing,
{
}

/// Key releases change nothing.
pub proof fn law_release_ignored(m: AppModel, key: Key)
    requires
        key.release,
    ensures
        m.after_key(key).0 == m,
        m.after_key(key).1 is Nothing,
{
}

/// Ctrl-P twice restores the preview setting.
pub proof fn law_preview_toggle_involutive(m: AppModel)
    ensures
        m.toggled_preview().toggled_preview() == m,
{
}

/// Editing keys only ever touch the editor: the browser, the quit flag and
/// the status line stay as they were.
pub proof fn law_editor_keys_keep_browser(m: AppModel, key: Key)
    requires
        !key.release,
        !key.ctrl,
        m.screen is Editor,
    ensures
        m.after_key(key).0.browser == m.browser,
        m.after_key(key).0.should_quit == m.should_quit,
        m.after_key(key).0.status == m.status,
{
}

/// On the editor screen, Delete removes the char under the cursor (if there
/// is one) and leaves the cursor where it is.
pub proof fn law_delete_removes_char_under_cursor(m: AppModel, e: EditorModel)
    requires
        m.screen is Editor,
        m.editor == Some(e),
        e.wf(),
    ensures
        ({
            let k = Key { code: KeyCode::Delete, ctrl: false, release: false };
            let after = m.after_key(k).0;
            &&& after.editor is Some
            &&& after.editor.unwrap().cursor == e.cursor
            &&& e.cursor < e.text.len() ==> after.editor.unwrap().text == e.text.remove(e.cursor)
                && after.editor.unwrap().dirty
            &&& e.cursor == e.text.len() ==> after.editor.unwrap().text == e.text
            &&& m.after_key(k).1 is Nothing
        }),
{
}

} // verus!

//! The text editor model: a ropey-backed buffer with a cursor, scrolling, and
//! editing operations.
//!
//! The cursor is a single character index into the rope. Line and column are
//! derived on demand from the rope's line structure, so they can never drift
//! out of sync with the text. Vertical moves use a sticky desired column.
use vstd::prelude::*;

use ropey::Rope;

use crate::text::{
    breaks_before, line_count, line_len, line_start, rope_char, rope_char_to_line, rope_from_str,
    rope_insert_char, rope_len_chars, rope_len_lines, rope_line_to_char, rope_new, rope_remove,
    rope_text, rope_to_string, lemma_breaks_mono, lemma_index_in_line, lemma_line_len, lemma_line_of,
    lemma_line_start, lemma_line_start_bounds,
};

verus! {

/// The abstract state of an editor buffer.
pub struct EditorModel {
    pub text: Seq<char>,
    pub cursor: int,
    pub scroll_row: int,
    pub desired_col: int,
    pub path: Option<Seq<char>>,
    pub dirty: bool,
}

pub open spec fn min_int(a: int, b: int) -> int {
    if a <= b {
        a
    } else {
        b
    }
}

pub open spec fn clamp_int(v: int, lo: int, hi: int) -> int {
    if v < lo {
        lo
    } else if v > hi {
        hi
    } else {
        v
    }
}

impl EditorModel {
    pub open spec fn wf(self) -> bool {
        &&& 0 <= self.cursor <= self.text.len()
        &&& 0 <= self.scroll_row
        &&& 0 <= self.desired_col
    }

    /// Zero-based line of the cursor.
    pub open spec fn line(self) -> nat {
        breaks_before(self.text, self.cursor)
    }

    /// Zero-based column of the cursor within its line.
    pub open spec fn col(self) -> int {
        self.cursor - line_start(self.text, self.line())
    }

    /// Char index for (line, col), with the column clamped to the line length.
    pub open spec fn pos_at(self, l: nat, c: int) -> int {
        line_start(self.text, l) + min_int(c, line_len(self.text, l))
    }

    pub open spec fn last_line(self) -> int {
        line_count(self.text) - 1
    }

    pub open spec fn with_cursor(self, c: int) -> EditorModel {
        EditorModel { cursor: c, ..self }
    }

    /// Remember the current column for later vertical moves.
    pub open spec fn synced(self) -> EditorModel {
        EditorModel { desired_col: self.col(), ..self }
    }

    pub open spec fn moved_left(self) -> EditorModel {
        if self.cursor > 0 {
            self.with_cursor(self.cursor - 1).synced()
        } else {
            self.synced()
        }
    }

    pub open spec fn moved_right(self) -> EditorModel {
        if self.cursor < self.text.len() {
            self.with_cursor(self.cursor + 1).synced()
        } else {
            self.synced()
        }
    }

    pub open spec fn moved_up(self) -> EditorModel {
        if self.line() > 0 {
            self.with_cursor(self.pos_at((self.line() - 1) as nat, self.desired_col))
        } else {
            self
        }
    }

    pub open spec fn moved_down(self) -> EditorModel {
        if self.line() + 1 < line_count(self.text) {
            self.with_cursor(self.pos_at(self.line() + 1, self.desired_col))
        } else {
            self
        }
    }

    pub open spec fn moved_home(self) -> EditorModel {
        EditorModel {
            cursor: line_start(self.text, self.line()),
            desired_col: 0,
            ..self
        }
    }

    pub open spec fn moved_end(self) -> EditorModel {
        EditorModel {
            cursor: line_start(self.text, self.line()) + line_len(self.text, self.line()),
            desired_col: line_len(self.text, self.line()),
            ..self
        }
    }

    /// Move by `rows` lines (negative: up), clamped to the buffer.
    pub open spec fn paged(self, rows: int) -> EditorModel {
        let target = clamp_int(self.line() + rows, 0, self.last_line());
        self.with_cursor(self.pos_at(target as nat, self.desired_col))
    }

    pub open spec fn inserted(self, ch: char) -> EditorModel {
        EditorModel {
            text: self.text.insert(self.cursor, ch),
            cursor: self.cursor + 1,
            dirty: true,
            ..self
        }.synced()
    }

    pub open spec fn backspaced(self) -> EditorModel {
        if self.cursor > 0 {
            EditorModel {
                text: self.text.remove(self.cursor - 1),
                cursor: self.cursor - 1,
                dirty: true,
                ..self
            }.synced()
        } else {
            self
        }
    }

    pub open spec fn deleted_forward(self) -> EditorModel {
        if self.cursor < self.text.len() {
            EditorModel { text: self.text.remove(self.cursor), dirty: true, ..self }
        } else {
            self
        }
    }

    /// Scroll so the cursor's line is inside a viewport of `rows` lines.
    pub open spec fn made_visible(self, rows: int) -> EditorModel {
        if rows == 0 {
            self
        } else if self.line() < self.scroll_row {
            EditorModel { scroll_row: self.line() as int, ..self }
        } else if self.line() >= self.scroll_row + rows {
            EditorModel { scroll_row: self.line() - rows + 1, ..self }
        } else {
            self
        }
    }

    pub open spec fn saved(self) -> EditorModel {
        EditorModel { dirty: false, ..self }
    }
}

pub struct Editor {
    rope: Rope,
    /// Cursor position as a character index into the rope.
    cursor: usize,
    /// Topmost visible line (vertical scroll offset).
    scroll_row: usize,
    /// Sticky column for vertical movement.
    desired_col: usize,
    /// Backing file, if this buffer is associated with one.
    path: Option<String>,
    /// Unsaved changes since the last load/save.
    dirty: bool,
}

pub open spec fn opt_view(o: Option<String>) -> Option<Seq<char>> {
    match o {
        Some(s) => Some(s@),
        None => None,
    }
}

impl View for Editor {
    type V = EditorModel;

    closed spec fn view(&self) -> EditorModel {
        EditorModel {
            text: rope_text(self.rope),
            cursor: self.cursor as int,
            scroll_row: self.scroll_row as int,
            desired_col: self.desired_col as int,
            path: opt_view(self.path),
            dirty: self.dirty,
        }
    }
}

/// The message `save_target` fails with when there is nowhere to write.
pub open spec fn no_path_message() -> Seq<char> {
    "buffer has no file path to save to"@
}

/// Cursor and line facts that hold in every well-formed model.
pub proof fn lemma_model_facts(m: EditorModel)
    requires
        m.wf(),
    ensures
        m.line() < line_count(m.text),
        0 <= m.col() <= m.cursor,
        line_start(m.text, m.line()) <= m.cursor,
        m.synced().wf(),
{
    lemma_line_of(m.text, m.cursor);
}

/// The position computed for any existing line lies inside the text.
pub proof fn lemma_pos_at(m: EditorModel, l: nat, c: int)
    requires
        l < line_count(m.text),
        c >= 0,
    ensures
        line_start(m.text, l) <= m.pos_at(l, c) <= m.text.len(),
        m.pos_at(l, c) <= line_start(m.text, l + 1),
{
    lemma_line_len(m.text, l);
    lemma_line_start_bounds(m.text, l);
}


// ─── Laws ───────────────────────────────────────────────────────────────

/// The cursor after `n` moves down.
pub open spec fn down_n(m: EditorModel, n: nat) -> EditorModel
    decreases n,
{
    if n == 0 {
        m
    } else {
        down_n(m, (n - 1) as nat).moved_down()
    }
}

/// The cursor after `n` moves up.
pub open spec fn up_n(m: EditorModel, n: nat) -> EditorModel
    decreases n,
{
    if n == 0 {
        m
    } else {
        up_n(m, (n - 1) as nat).moved_up()
    }
}

/// Line `l` is the last line or ends with LF.
pub open spec fn lf_ended(s: Seq<char>, l: nat) -> bool {
    l + 1 >= line_count(s) || s[line_start(s, l + 1) - 1] == '\n'
}

/// Column `d`, clamped to line `j`, is a position on line `j`.
pub open spec fn lands_on(s: Seq<char>, j: nat, d: int) -> bool {
    breaks_before(s, line_start(s, j) + min_int(d, line_len(s, j))) == j
}

/// On a line that is the last one or ends with LF, every clamped column
/// stays on the line.
pub proof fn lemma_lf_ended_lands(s: Seq<char>, j: nat, d: int)
    requires
        j < line_count(s),
        d >= 0,
        lf_ended(s, j),
    ensures
        lands_on(s, j, d),
{
    lemma_line_start_bounds(s, j);
    lemma_line_len(s, j);
    let p = line_start(s, j) + min_int(d, line_len(s, j));
    if p < line_start(s, j + 1) {
        lemma_index_in_line(s, j, p);
    }
}

/// On any line, a column inside the line's text stays on the line.
pub proof fn lemma_fitting_column_lands(s: Seq<char>, j: nat, d: int)
    requires
        j < line_count(s),
        0 <= d < line_len(s, j),
    ensures
        lands_on(s, j, d),
{
    lemma_line_start_bounds(s, j);
    lemma_line_len(s, j);
    lemma_index_in_line(s, j, line_start(s, j) + d);
}

proof fn lemma_down_n(m: EditorModel, k: nat)
    requires
        m.wf(),
        m.line() + k < line_count(m.text),
        forall|j: nat| m.line() < j <= m.line() + k ==> #[trigger] lands_on(m.text, j, m.desired_col),
    ensures
        down_n(m, k).wf(),
        down_n(m, k).line() == m.line() + k,
        k > 0 ==> down_n(m, k) == m.with_cursor(m.pos_at(m.line() + k, m.desired_col)),
        k == 0 ==> down_n(m, k) == m,
    decreases k,
{
    if k > 0 {
        lemma_down_n(m, (k - 1) as nat);
        let j = m.line() + k;
        assert(lands_on(m.text, j, m.desired_col));
        lemma_pos_at(m, j, m.desired_col);
    }
}

proof fn lemma_up_n(m: EditorModel, k: nat)
    requires
        m.wf(),
        k <= m.line(),
        forall|j: nat| m.line() - k <= j < m.line() ==> #[trigger] lands_on(m.text, j, m.desired_col),
    ensures
        up_n(m, k).wf(),
        up_n(m, k).line() == m.line() - k,
        k > 0 ==> up_n(m, k) == m.with_cursor(m.pos_at((m.line() - k) as nat, m.desired_col)),
        k == 0 ==> up_n(m, k) == m,
    decreases k,
{
    if k > 0 {
        lemma_up_n(m, (k - 1) as nat);
        let j = (m.line() - k) as nat;
        assert(lands_on(m.text, j, m.desired_col));
        lemma_model_facts(m);
        lemma_pos_at(m, j, m.desired_col);
        lemma_line_start_bounds(m.text, j);
    }
}

/// Paging keeps the sticky column: paging `k` lines down (or up) lands where
/// `k` single moves down (or up) land, whenever those lines exist and the
/// remembered column, clamped, stays on each line passed.
pub proof fn law_page_is_repeated_moves(m: EditorModel, k: nat)
    requires
        m.wf(),
        k > 0,
    ensures
        m.line() + k < line_count(m.text) && (forall|j: nat|
            m.line() < j <= m.line() + k ==> #[trigger] lands_on(m.text, j, m.desired_col))
            ==> m.paged(k as int) == down_n(m, k),
        k <= m.line() && (forall|j: nat|
            m.line() - k <= j < m.line() ==> #[trigger] lands_on(m.text, j, m.desired_col))
            ==> m.paged(-(k as int)) == up_n(m, k),
{
    lemma_model_facts(m);
    if m.line() + k < line_count(m.text) && (forall|j: nat|
        m.line() < j <= m.line() + k ==> #[trigger] lands_on(m.text, j, m.desired_col)) {
        lemma_down_n(m, k);
    }
    if k <= m.line() && (forall|j: nat|
        m.line() - k <= j < m.line() ==> #[trigger] lands_on(m.text, j, m.desired_col)) {
        lemma_up_n(m, k);
    }
}

/// A page move lands on the clamped target line, at the remembered column
/// clamped to that line's length, and never edits.
pub proof fn law_page_target(m: EditorModel, rows: int)
    requires
        m.wf(),
    ensures
        ({
            let t = clamp_int(m.line() + rows, 0, line_count(m.text) - 1);
            let c = m.paged(rows).cursor - line_start(m.text, t as nat);
            &&& m.paged(rows).text == m.text
            &&& m.paged(rows).desired_col == m.desired_col
            &&& c == min_int(m.desired_col, line_len(m.text, t as nat))
        }),
{
}

/// Sticky column: moving down `k` lines and back up `k` lines returns the
/// cursor to where it was, provided the column was remembered and the
/// remembered column, clamped, stays on each line moved onto. It always does
/// on a line that is the last one or ends with LF (`lemma_lf_ended_lands`);
/// it fails only on a line ended by another break (CR, VT, FF, NEL, LS, PS)
/// when the column reaches past its text, as that break counts in its length.
pub proof fn law_down_then_up_returns(m: EditorModel, k: nat)
    requires
        m.wf(),
        m.desired_col == m.col(),
        m.line() + k < line_count(m.text),
        forall|j: nat| m.line() < j <= m.line() + k ==> #[trigger] lands_on(m.text, j, m.desired_col),
    ensures
        up_n(down_n(m, k), k) == m,
{
    let t = m.text;
    let l = m.line();
    let d = m.desired_col;
    lemma_model_facts(m);
    if k > 0 {
        lemma_down_n(m, k);
        let dm = down_n(m, k);
        // The cursor sits before the start of the next line, so its column
        // fits the line and clamping leaves it where it is.
        lemma_line_start(t, l);
        lemma_line_start(t, l + 1);
        lemma_line_start_bounds(t, l);
        if m.cursor >= line_start(t, l + 1) {
            lemma_breaks_mono(t, line_start(t, l + 1), m.cursor);
        }
        assert(m.pos_at(l, d) == m.cursor);
        assert forall|j: nat| dm.line() - k <= j < dm.line() implies #[trigger] lands_on(
            dm.text,
            j,
            dm.desired_col,
        ) by {
            if j > l {
                assert(lands_on(t, j, d));
            }
        }
        lemma_up_n(dm, k);
    }
}

/// Cursor movement never edits: the text, the backing file and the dirty
/// flag stay as they were.
pub proof fn law_moves_keep_text(m: EditorModel, rows: int)
    ensures
        m.moved_left().text == m.text && m.moved_left().path == m.path && m.moved_left().dirty == m.dirty,
        m.moved_right().text == m.text && m.moved_right().path == m.path && m.moved_right().dirty == m.dirty,
        m.moved_up().text == m.text && m.moved_up().path == m.path && m.moved_up().dirty == m.dirty,
        m.moved_down().text == m.text && m.moved_down().path == m.path && m.moved_down().dirty == m.dirty,
        m.moved_home().text == m.text && m.moved_home().path == m.path && m.moved_home().dirty == m.dirty,
        m.moved_end().text == m.text && m.moved_end().path == m.path && m.moved_end().dirty == m.dirty,
        m.paged(rows).text == m.text && m.paged(rows).path == m.path && m.paged(rows).dirty == m.dirty,
{
}

/// Backspace undoes a typed char: text and cursor are restored.
pub proof fn law_backspace_undoes_insert(m: EditorModel, ch: char)
    requires
        m.wf(),
    ensures
        m.inserted(ch).backspaced().text == m.text,
        m.inserted(ch).backspaced().cursor == m.cursor,
        m.inserted(ch).backspaced().dirty,
{
    assert(m.text.insert(m.cursor, ch).remove(m.cursor) =~= m.text);
}

/// Stepping back over a typed char and deleting forward also restores the
/// text and the cursor.
pub proof fn law_delete_forward_undoes_insert(m: EditorModel, ch: char)
    requires
        m.wf(),
    ensures
        m.inserted(ch).moved_left().deleted_forward().text == m.text,
        m.inserted(ch).moved_left().deleted_forward().cursor == m.cursor,
{
    assert(m.text.insert(m.cursor, ch).remove(m.cursor) =~= m.text);
}

/// After `ensure_visible` with a non-empty viewport, the cursor's line is
/// inside it.
pub proof fn law_cursor_visible(m: EditorModel, rows: int)
    requires
        m.wf(),
        rows > 0,
    ensures
        m.made_visible(rows).scroll_row <= m.made_visible(rows).line() < m.made_visible(
            rows,
        ).scroll_row + rows,
{
}

/// Home puts the cursor in column 0 of the same line.
pub proof fn law_home_is_column_zero(m: EditorModel)
    requires
        m.wf(),
    ensures
        m.moved_home().line() == m.line(),
        m.moved_home().col() == 0,
{
    lemma_model_facts(m);
    lemma_line_start(m.text, m.line());
}

impl Editor {
    pub open spec fn wf(&self) -> bool {
        self@.wf() && self@.text.len() <= usize::MAX
    }

    /// An empty scratch buffer with no backing file.
    pub fn scratch() -> (e: Self)
        ensures
            e.wf(),
            e@ == (EditorModel {
                text: Seq::empty(),
                cursor: 0,
                scroll_row: 0,
                desired_col: 0,
                path: None,
                dirty: false,
            }),
    {
        Editor {
            rope: rope_new(),
            cursor: 0,
            scroll_row: 0,
            desired_col: 0,
            path: None,
            dirty: false,
        }
    }

    /// A buffer for the file at `path` whose contents are `text`; reading the
    /// file is left to the caller.
    pub fn open(path: &str, text: &str) -> (e: Self)
        ensures
            e.wf(),
            e@ == (EditorModel {
                text: text@,
                cursor: 0,
                scroll_row: 0,
                desired_col: 0,
                path: Some(path@),
                dirty: false,
            }),
    {
        let rope = rope_from_str(text);
        // The text's length is a `usize` (part of being well formed).
        let _len = rope_len_chars(&rope);
        Editor {
            rope,
            cursor: 0,
            scroll_row: 0,
            desired_col: 0,
            path: Some(String::from_str(path)),
            dirty: false,
        }
    }

    /// What saving writes: the backing path and the full text, or the error
    /// when the buffer has no file.
    pub fn save_target(&self) -> (r: Result<(String, String), String>)
        ensures
            match r {
                Ok((p, t)) => self@.path == Some(p@) && t@ == self@.text,
                Err(msg) => self@.path is None && msg@ == no_path_message(),
            },
    {
        match &self.path {
            Some(p) => Ok((p.clone(), rope_to_string(&self.rope))),
            None => Err(String::from_str("buffer has no file path to save to")),
        }
    }

    /// Finish a save: `written` says whether writing `save_target`'s text to
    /// its path succeeded. On success the buffer is clean; on failure it is
    /// unchanged and the error names the path (or, for a buffer with no
    /// file, says so).
    pub fn save(&mut self, written: bool) -> (r: Result<(), String>)
        requires
            old(self).wf(),
        ensures
            final(self).wf(),
            match old(self)@.path {
                None => r matches Err(m) && m@ == no_path_message() && final(self)@ == old(self)@,
                Some(p) => if written {
                    r is Ok && final(self)@ == old(self)@.saved()
                } else {
                    r matches Err(m) && m@ == "writing "@ + p && final(self)@ == old(self)@
                },
            },
    {
        match &self.path {
            None => Err(String::from_str("buffer has no file path to save to")),
            Some(p) => if written {
                self.dirty = false;
                Ok(())
            } else {
                let mut m = String::from_str("writing ");
                m.append(p.as_str());
                Err(m)
            },
        }
    }

    // ─── Accessors ──────────────────────────────────────────────────────

    pub fn rope(&self) -> (r: &Rope)
        ensures
            rope_text(*r) == self@.text,
    {
        &self.rope
    }

    pub fn scroll_row(&self) -> (r: usize)
        ensures
            r == self@.scroll_row,
    {
        self.scroll_row
    }

    pub fn is_dirty(&self) -> (r: bool)
        ensures
            r == self@.dirty,
    {
        self.dirty
    }

    pub fn path(&self) -> (r: Option<&str>)
        ensures
            match r {
                Some(p) => self@.path == Some(p@),
                None => self@.path is None,
            },
    {
        match &self.path {
            Some(p) => Some(p.as_str()),
            None => None,
        }
    }

    /// Zero-based (line, column) of the cursor.
    pub fn cursor_line_col(&self) -> (r: (usize, usize))
        requires
            self.wf(),
        ensures
            r.0 == self@.line(),
            r.1 == self@.col(),
    {
        proof {
            lemma_model_facts(self@);
        }
        let line = rope_char_to_line(&self.rope, self.cursor);
        let start = rope_line_to_char(&self.rope, line);
        (line, self.cursor - start)
    }

    // ─── Movement ───────────────────────────────────────────────────────

    pub fn move_left(&mut self)
        requires
            old(self).wf(),
        ensures
            final(self).wf(),
            final(self)@ == old(self)@.moved_left(),
    {
        if self.cursor > 0 {
            self.cursor = self.cursor - 1;
        }
        self.sync_desired_col();
    }

    pub fn move_right(&mut self)
        requires
            old(self).wf(),
        ensures
            final(self).wf(),
            final(self)@ == old(self)@.moved_right(),
    {
        if self.cursor < rope_len_chars(&self.rope) {
            self.cursor = self.cursor + 1;
        }
        self.sync_desired_col();
    }

    pub fn move_up(&mut self)
        requires
            old(self).wf(),
        ensures
            final(self).wf(),
            final(self)@ == old(self)@.moved_up(),
    {
        let (line, _) = self.cursor_line_col();
        if line > 0 {
            self.cursor = self.char_at(line - 1, self.desired_col);
        }
    }

    pub fn move_down(&mut self)
        requires
            old(self).wf(),
        ensures
            final(self).wf(),
            final(self)@ == old(self)@.moved_down(),
    {
        let (line, _) = self.cursor_line_col();
        let n = rope_len_lines(&self.rope);
        if line + 1 < n {
            self.cursor = self.char_at(line + 1, self.desired_col);
        }
    }

    pub fn move_home(&mut self)
        requires
            old(self).wf(),
        ensures
            final(self).wf(),
            final(self)@ == old(self)@.moved_home(),
    {
        let (line, _) = self.cursor_line_col();
        proof {
            lemma_model_facts(self@);
            lemma_line_start_bounds(self@.text, line as nat);
        }
        self.cursor = rope_line_to_char(&self.rope, line);
        self.desired_col = 0;
    }

    pub fn move_end(&mut self)
        requires
            old(self).wf(),
        ensures
            final(self).wf(),
            final(self)@ == old(self)@.moved_end(),
    {
        let (line, _) = self.cursor_line_col();
        proof {
            lemma_model_facts(self@);
            lemma_line_len(self@.text, line as nat);
        }
        let len = self.line_len(line);
        self.cursor = rope_line_to_char(&self.rope, line) + len;
        self.desired_col = len;
    }

    /// Move `rows` lines down (up when negative), clamped to the buffer.
    pub fn page(&mut self, rows: isize)
        requires
            old(self).wf(),
        ensures
            final(self).wf(),
            final(self)@ == old(self)@.paged(rows as int),
    {
        let (line, _) = self.cursor_line_col();
        let n = rope_len_lines(&self.rope);
        let last: usize = n - 1;
        let wanted: i128 = line as i128 + rows as i128;
        let target: usize = if wanted < 0 {
            0
        } else if wanted > last as i128 {
            last
        } else {
            wanted as usize
        };
        self.cursor = self.char_at(target, self.desired_col);
    }

    // ─── Editing ────────────────────────────────────────────────────────

    pub fn insert_char(&mut self, ch: char)
        requires
            old(self).wf(),
        ensures
            final(self).wf(),
            final(self)@ == old(self)@.inserted(ch),
    {
        rope_insert_char(&mut self.rope, self.cursor, ch);
        // The grown text's length is a `usize`, which bounds the new cursor.
        let _len = rope_len_chars(&self.rope);
        self.cursor = self.cursor + 1;
        self.dirty = true;
        self.sync_desired_col();
    }

    pub fn insert_newline(&mut self)
        requires
            old(self).wf(),
        ensures
            final(self).wf(),
            final(self)@ == old(self)@.inserted('\n'),
    {
        self.insert_char('\n');
    }

    pub fn backspace(&mut self)
        requires
            old(self).wf(),
        ensures
            final(self).wf(),
            final(self)@ == old(self)@.backspaced(),
    {
        if self.cursor > 0 {
            let ghost t = self@.text;
            rope_remove(&mut self.rope, self.cursor - 1, self.cursor);
            assert(rope_text(self.rope) =~= t.remove(self.cursor - 1));
            self.cursor = self.cursor - 1;
            self.dirty = true;
            self.sync_desired_col();
        }
    }

    pub fn delete_forward(&mut self)
        requires
            old(self).wf(),
        ensures
            final(self).wf(),
            final(self)@ == old(self)@.deleted_forward(),
    {
        if self.cursor < rope_len_chars(&self.rope) {
            let ghost t = self@.text;
            rope_remove(&mut self.rope, self.cursor, self.cursor + 1);
            assert(rope_text(self.rope) =~= t.remove(self.cursor as int));
            self.dirty = true;
        }
    }

    // ─── Scrolling ──────────────────────────────────────────────────────

    /// Adjust the scroll offset so the cursor stays within a viewport of the
    /// given height.
    pub fn ensure_visible(&mut self, viewport_rows: usize)
        requires
            old(self).wf(),
        ensures
            final(self).wf(),
            final(self)@ == old(self)@.made_visible(viewport_rows as int),
    {
        if viewport_rows == 0 {
            return;
        }
        let (line, _) = self.cursor_line_col();
        if line < self.scroll_row {
            self.scroll_row = line;
        } else if line - self.scroll_row >= viewport_rows {
            self.scroll_row = line - viewport_rows + 1;
        }
    }

    // ─── Internals ──────────────────────────────────────────────────────

    /// Character count of a line, excluding a trailing LF.
    fn line_len(&self, line: usize) -> (n: usize)
        requires
            self.wf(),
            line < line_count(self@.text),
        ensures
            n == line_len(self@.text, line as nat),
    {
        proof {
            lemma_line_start_bounds(self@.text, line as nat);
        }
        // `line + 1` is at most the line count, itself a `usize`.
        let _lines = rope_len_lines(&self.rope);
        let a = rope_line_to_char(&self.rope, line);
        let b = rope_line_to_char(&self.rope, line + 1);
        if b > a && rope_char(&self.rope, b - 1) == '\n' {
            b - a - 1
        } else {
            b - a
        }
    }

    /// Char index of (line, col), clamping col to the line's length.
    fn char_at(&self, line: usize, col: usize) -> (i: usize)
        requires
            self.wf(),
            line < line_count(self@.text),
        ensures
            i == self@.pos_at(line as nat, col as int),
            i <= self@.text.len(),
    {
        proof {
            lemma_pos_at(self@, line as nat, col as int);
            lemma_line_len(self@.text, line as nat);
        }
        let len = self.line_len(line);
        let c = if col < len {
            col
        } else {
            len
        };
        rope_line_to_char(&self.rope, line) + c
    }

    /// Remember the current column for subsequent vertical moves.
    fn sync_desired_col(&mut self)
        requires
            old(self).wf(),
        ensures
            final(self).wf(),
            final(self)@ == old(self)@.synced(),
    {
        let (_, col) = self.cursor_line_col();
        self.desired_col = col;
    }
}

} // verus!

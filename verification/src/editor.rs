//! The modal input engine: the editor's state and its keystroke
//! dispatch, as one transition function over a mathematical view of the
//! whole editor. The surrounding application reads keys, renders, and
//! performs file I/O; every decision in between is made here.

use vstd::prelude::*;

use crate::command::CommandResult;
use crate::document::spec_doc_delete;
use crate::document::spec_doc_find;
use crate::document::spec_doc_insert;
use crate::document::spec_doc_insert_newline;
use crate::document::DocView;
use crate::document::Document;
use crate::filetype::str_eq;
use crate::graphemes::char_to_string;
use crate::graphemes::grapheme_split;
use crate::keymaps::Key;
use crate::mode::spec_switch;
use crate::mode::Mode;
use crate::mode::PossibleModes;
use crate::position::Position;
use crate::settings::Settings;
use crate::settings::SettingsView;
use crate::terminal::Terminal;

verus! {

/// Which way a search scans the document from the starting position.
#[derive(PartialEq, Eq, Copy, Clone, Structural, Debug)]
pub enum SearchDirection {
    Forward,
    Backward,
}

/// How many quit signals a dirty document absorbs before the editor
/// actually quits.
pub const QUIT_TIMES: u8 = 2;

/// A transient one-line message for the message bar. Display expiry is
/// a rendering-time concern of the surrounding application.
pub struct StatusMessage {
    pub text: String,
}

impl StatusMessage {
    pub fn from(message: String) -> (s: Self)
        ensures
            s.text == message,
    {
        Self { text: message }
    }
}

/// What a keystroke asks the surrounding application to do beyond the
/// state change itself: nothing, save the file, or open a prompt.
#[derive(PartialEq, Eq, Copy, Clone, Structural, Debug)]
pub enum KeyOutcome {
    Done,
    Save,
    SearchPrompt,
    CommandPrompt,
}

/// What one prompt keystroke did to the pending input line.
#[derive(PartialEq, Eq, Copy, Clone, Structural, Debug)]
pub enum PromptStatus {
    Pending,
    Accept,
    Cancel,
}

/// The mathematical content of the whole editor: the document view, the
/// cursor and scroll offset as integer pairs `(column, row)`, the status
/// text, the quit countdown, the mode, and the viewport dimensions.
#[verifier::ext_equal]
pub struct EditorView {
    pub should_quit: bool,
    pub width: int,
    pub height: int,
    pub doc: DocView,
    pub cursor: (int, int),
    pub offset: (int, int),
    pub status: Seq<char>,
    pub quit_times: int,
    pub mode: PossibleModes,
    pub config: SettingsView,
}

/// The editor: one owning context object, passed by exclusive reference
/// into whichever handler runs for the current key.
pub struct Editor {
    should_quit: bool,
    terminal: Terminal,
    pub document: Document,
    cursor_position: Position,
    offset: Position,
    status_message: StatusMessage,
    quit_times: u8,
    mode: Mode,
    config: Settings,
}

impl View for Editor {
    type V = EditorView;

    closed spec fn view(&self) -> EditorView {
        EditorView {
            should_quit: self.should_quit,
            width: self.terminal.spec_width() as int,
            height: self.terminal.spec_height() as int,
            doc: self.document@,
            cursor: (self.cursor_position.x as int, self.cursor_position.y as int),
            offset: (self.offset.x as int, self.offset.y as int),
            status: self.status_message.text@,
            quit_times: self.quit_times as int,
            mode: self.mode.current_mode,
            config: self.config@,
        }
    }
}

/// The width of row `y`, or 0 where the document has no such row.
pub open spec fn spec_line_width(rows: Seq<Seq<Seq<char>>>, y: int) -> int {
    if 0 <= y < rows.len() {
        rows[y].len() as int
    } else {
        0
    }
}

/// Addition clamped to the machine's word range, as the executable
/// saturating operations compute it.
pub open spec fn sat_add_usize(a: int, b: int) -> int {
    if a + b > usize::MAX as int {
        usize::MAX as int
    } else {
        a + b
    }
}

/// Subtraction clamped at zero.
pub open spec fn sat_sub(a: int, b: int) -> int {
    if a - b < 0 {
        0
    } else {
        a - b
    }
}

/// Where the cursor lands after one movement key: a column beyond the
/// line is first pulled back to the line's end; horizontal movement
/// wraps to the adjacent line at its boundaries; vertical movement
/// clamps the row to the document (one past the last line is allowed);
/// page movement jumps by one viewport height.
pub open spec fn spec_move_cursor(
    rows: Seq<Seq<Seq<char>>>,
    term_h: int,
    cur: (int, int),
    key: Key,
) -> (int, int) {
    let y0 = cur.1;
    let width = spec_line_width(rows, y0);
    let x0 = if cur.0 > width {
        width
    } else {
        cur.0
    };
    let doc_h = rows.len() as int;
    match key {
        Key::Home => (0, y0),
        Key::End => (width, y0),
        Key::PageUp => (
            x0,
            if y0 > term_h {
                y0 - term_h
            } else {
                0
            },
        ),
        Key::PageDown => (
            x0,
            if sat_add_usize(y0, term_h) < doc_h {
                sat_add_usize(y0, term_h)
            } else {
                doc_h
            },
        ),
        Key::Up => (
            x0,
            if y0 > 0 {
                y0 - 1
            } else {
                0
            },
        ),
        Key::Down => (
            x0,
            if y0 < doc_h {
                y0 + 1
            } else {
                y0
            },
        ),
        Key::Left => if x0 > 0 {
            (x0 - 1, y0)
        } else if y0 > 0 {
            (spec_line_width(rows, y0 - 1), y0 - 1)
        } else {
            (x0, y0)
        },
        Key::Right => if x0 < width {
            (x0 + 1, y0)
        } else if y0 < doc_h {
            (0, y0 + 1)
        } else {
            (x0, y0)
        },
        _ => (x0, y0),
    }
}

/// One scroll axis: the minimal shift of the offset that brings the
/// cursor back inside the window `[offset, offset + size)`.
pub open spec fn spec_scroll_axis(pos: int, off: int, size: int) -> int {
    if pos < off {
        pos
    } else if pos >= sat_add_usize(off, size) {
        sat_add_usize(sat_sub(pos, size), 1)
    } else {
        off
    }
}

/// The editor after recomputing the scroll offset on both axes
/// independently, so the cursor is inside the visible window.
pub open spec fn spec_scrolled(v: EditorView) -> EditorView {
    EditorView {
        offset: (
            spec_scroll_axis(v.cursor.0, v.offset.0, v.width),
            spec_scroll_axis(v.cursor.1, v.offset.1, v.height),
        ),
        ..v
    }
}

/// The editor after one cursor movement key.
pub open spec fn spec_moved(v: EditorView, key: Key) -> EditorView {
    EditorView { cursor: spec_move_cursor(v.doc.rows, v.height, v.cursor, key), ..v }
}

/// The editor after switching mode.
pub open spec fn spec_with_mode(v: EditorView, m: PossibleModes) -> EditorView {
    EditorView { mode: spec_switch(m).0, ..v }
}

/// The editor after replacing the status message.
pub open spec fn spec_with_status(v: EditorView, t: Seq<char>) -> EditorView {
    EditorView { status: t, ..v }
}

/// The editor after inserting one character at the cursor and stepping
/// right, as Insert mode does for every printable key.
pub open spec fn spec_insert_char(v: EditorView, c: char) -> EditorView {
    let with_char = EditorView {
        doc: DocView {
            rows: spec_doc_insert(v.doc.rows, v.cursor.0, v.cursor.1, c),
            dirty: v.doc.dirty || v.cursor.1 <= v.doc.rows.len(),
            ..v.doc
        },
        ..v
    };
    spec_moved(with_char, Key::Right)
}

/// The editor after breaking the line at the cursor (the cursor itself
/// does not move; callers move it).
pub open spec fn spec_newline_at_cursor(v: EditorView) -> EditorView {
    EditorView {
        doc: DocView {
            rows: spec_doc_insert_newline(v.doc.rows, v.cursor.0, v.cursor.1),
            ..v.doc
        },
        ..v
    }
}

/// The editor after deleting at the cursor.
pub open spec fn spec_delete_at_cursor(v: EditorView) -> EditorView {
    EditorView {
        doc: DocView {
            rows: spec_doc_delete(v.doc.rows, v.cursor.0, v.cursor.1),
            dirty: v.doc.dirty || v.cursor.1 < v.doc.rows.len(),
            ..v.doc
        },
        ..v
    }
}

/// Insert-mode Tab: `n` spaces, each inserted at the cursor with a step
/// right in between.
pub open spec fn spec_tab_insert(v: EditorView, n: nat) -> EditorView
    decreases n,
{
    if n == 0 {
        v
    } else {
        spec_tab_insert(spec_insert_char(v, ' '), (n - 1) as nat)
    }
}

/// Normal mode's dispatch table.
pub open spec fn spec_normal_step(v: EditorView, key: Key) -> (EditorView, KeyOutcome) {
    match key {
        Key::Char(c) => {
            if c == 'h' {
                (spec_moved(v, Key::Left), KeyOutcome::Done)
            } else if c == 'j' {
                (spec_moved(v, Key::Down), KeyOutcome::Done)
            } else if c == 'k' {
                (spec_moved(v, Key::Up), KeyOutcome::Done)
            } else if c == 'l' {
                (spec_moved(v, Key::Right), KeyOutcome::Done)
            } else if c == '0' {
                (spec_moved(v, Key::Home), KeyOutcome::Done)
            } else if c == '$' {
                (spec_moved(v, Key::End), KeyOutcome::Done)
            } else if c == 'w' || c == 'b' {
                (v, KeyOutcome::Done)
            } else if c == 'a' {
                (spec_with_mode(spec_moved(v, Key::Right), PossibleModes::Insert), KeyOutcome::Done)
            } else if c == 'i' {
                (spec_with_mode(v, PossibleModes::Insert), KeyOutcome::Done)
            } else if c == 'v' {
                (spec_with_mode(v, PossibleModes::Visual), KeyOutcome::Done)
            } else if c == 'o' {
                (
                    spec_newline_at_cursor(
                        spec_with_mode(spec_moved(v, Key::Down), PossibleModes::Insert),
                    ),
                    KeyOutcome::Done,
                )
            } else if c == ':' {
                (v, KeyOutcome::CommandPrompt)
            } else {
                (spec_with_mode(v, PossibleModes::OperatorPending), KeyOutcome::Done)
            }
        },
        Key::Ctrl(c) => {
            if c == 'd' {
                (spec_moved(v, Key::PageDown), KeyOutcome::Done)
            } else if c == 'u' {
                (spec_moved(v, Key::PageUp), KeyOutcome::Done)
            } else {
                (v, KeyOutcome::Done)
            }
        },
        _ => (v, KeyOutcome::Done),
    }
}

/// Insert mode's dispatch table.
pub open spec fn spec_insert_step(v: EditorView, key: Key) -> EditorView {
    match key {
        Key::Esc => spec_moved(spec_with_mode(v, PossibleModes::Normal), Key::Left),
        Key::Char(c) => spec_insert_char(v, c),
        Key::Enter => spec_moved(spec_newline_at_cursor(v), Key::Right),
        Key::Delete => spec_delete_at_cursor(v),
        Key::Backspace => if v.cursor.0 > 0 || v.cursor.1 > 0 {
            spec_delete_at_cursor(spec_moved(v, Key::Left))
        } else {
            v
        },
        Key::Tab => spec_tab_insert(v, v.config.tab_size as nat),
        _ => v,
    }
}

/// The per-mode dispatch: what the current mode does with the key, and
/// whether it asks the application to open a prompt.
pub open spec fn spec_mode_step(v: EditorView, key: Key) -> (EditorView, KeyOutcome) {
    match v.mode {
        PossibleModes::Normal => spec_normal_step(v, key),
        PossibleModes::Insert => (spec_insert_step(v, key), KeyOutcome::Done),
        PossibleModes::Visual => (
            match key {
                Key::Esc => spec_with_mode(v, PossibleModes::Normal),
                _ => v,
            },
            KeyOutcome::Done,
        ),
        PossibleModes::OperatorPending => (
            match key {
                Key::Esc => spec_with_mode(v, PossibleModes::Normal),
                _ => v,
            },
            KeyOutcome::Done,
        ),
        _ => (v, KeyOutcome::Done),
    }
}

/// The warning shown while a dirty document absorbs quit signals.
pub open spec fn spec_quit_warning(n: int) -> Seq<char> {
    if n >= 2 {
        "WARNING: File has unsaved changes. Press Ctrl-Q 2 more times to quit."@
    } else {
        "WARNING: File has unsaved changes. Press Ctrl-Q 1 more times to quit."@
    }
}

/// The whole keystroke transition: the per-mode step, then the
/// mode-independent keys (quit with its dirty-document countdown, save,
/// search, plain movement), then the viewport scroll. A quit warning
/// returns before scrolling, as a warned keystroke moves nothing.
pub open spec fn spec_keypress(v: EditorView, key: Key) -> (EditorView, KeyOutcome) {
    let step = spec_mode_step(v, key);
    let v1 = step.0;
    match key {
        Key::Ctrl(c) => {
            if c == 'q' {
                if v1.quit_times > 0 && v1.doc.dirty {
                    (
                        EditorView {
                            status: spec_quit_warning(v1.quit_times),
                            quit_times: v1.quit_times - 1,
                            ..v1
                        },
                        step.1,
                    )
                } else {
                    (spec_scrolled(EditorView { should_quit: true, ..v1 }), step.1)
                }
            } else if c == 's' {
                (spec_scrolled(v1), KeyOutcome::Save)
            } else if c == 'f' {
                (spec_scrolled(v1), KeyOutcome::SearchPrompt)
            } else {
                (spec_scrolled(v1), step.1)
            }
        },
        Key::Up | Key::Down | Key::Left | Key::Right | Key::PageUp | Key::PageDown | Key::Home
            | Key::End => (spec_scrolled(spec_moved(v1, key)), step.1),
        _ => (spec_scrolled(v1), step.1),
    }
}

/// One keystroke of the interactive search callback: right or down sets
/// the direction forward and nudges the cursor one step so repeated
/// presses advance past the current match; left or up sets it backward;
/// then the document is searched from the cursor, the cursor lands on a
/// match and the view re-centres, and a fruitless nudge is undone.
pub open spec fn spec_search_step(
    v: EditorView,
    key: Key,
    q: Seq<Seq<char>>,
    dir: SearchDirection,
) -> (EditorView, SearchDirection) {
    let dir1 = match key {
        Key::Right | Key::Down => SearchDirection::Forward,
        Key::Left | Key::Up => SearchDirection::Backward,
        _ => dir,
    };
    let moved = key is Right || key is Down;
    let v1 = if moved {
        spec_moved(v, Key::Right)
    } else {
        v
    };
    match spec_doc_find(v1.doc.rows, q, v1.cursor.0, v1.cursor.1, dir1) {
        Some(p) => (spec_scrolled(EditorView { cursor: p, ..v1 }), dir1),
        None => (
            if moved {
                spec_moved(v1, Key::Left)
            } else {
                v1
            },
            dir1,
        ),
    }
}

impl Editor {
    /// A fresh editor over an already-loaded document. The caller opens
    /// the file (or falls back to an empty document), reads the terminal
    /// size, and loads the configuration; this wires them together.
    pub fn new(document: Document, terminal: Terminal, config: Settings, initial_status: String) -> (e: Self)
        ensures
            e@.should_quit == false,
            e@.doc == document@,
            e@.cursor == (0int, 0int),
            e@.offset == (0int, 0int),
            e@.status == initial_status@,
            e@.quit_times == QUIT_TIMES as int,
            e@.mode == PossibleModes::Normal,
            e@.width == terminal.spec_width() as int,
            e@.height == terminal.spec_height() as int,
            e@.config == config@,
    {
        Self {
            should_quit: false,
            terminal,
            document,
            cursor_position: Position::new(0, 0),
            offset: Position::new(0, 0),
            status_message: StatusMessage::from(initial_status),
            quit_times: QUIT_TIMES,
            mode: Mode::default(),
            config,
        }
    }

    /// Move the cursor one step: pure cursor arithmetic over the
    /// document's shape, clamped to its bounds.
    pub fn move_cursor(&mut self, key: Key)
        ensures
            final(self)@ == spec_moved(old(self)@, key),
    {
        let terminal_window_height = self.terminal.size().height as usize;
        let mut x = self.cursor_position.x;
        let mut y = self.cursor_position.y;
        let document_height = self.document.len();
        let width = match self.document.row(y) {
            Some(row) => row.len(),
            None => 0,
        };
        if x > width {
            x = width;
        }
        match key {
            Key::Home => {
                x = 0;
            },
            Key::End => {
                x = width;
            },
            Key::PageUp => {
                y = if y > terminal_window_height {
                    y - terminal_window_height
                } else {
                    0
                };
            },
            Key::PageDown => {
                let target = y.saturating_add(terminal_window_height);
                y = if target < document_height {
                    target
                } else {
                    document_height
                };
            },
            Key::Up => {
                y = y.saturating_sub(1);
            },
            Key::Down => {
                if y < document_height {
                    y = y + 1;
                }
            },
            Key::Left => {
                if x > 0 {
                    x = x - 1;
                } else if y > 0 {
                    y = y - 1;
                    x = match self.document.row(y) {
                        Some(row) => row.len(),
                        None => 0,
                    };
                }
            },
            Key::Right => {
                if x < width {
                    x = x + 1;
                } else if y < document_height {
                    y = y + 1;
                    x = 0;
                }
            },
            _ => {},
        }
        self.cursor_position = Position::new(x, y);
        proof {
            assert(final(self)@ =~= spec_moved(old(self)@, key));
        }
    }

    /// Recompute the scroll offset so the cursor is inside the window.
    pub fn scroll(&mut self)
        ensures
            final(self)@ == spec_scrolled(old(self)@),
    {
        let x = self.cursor_position.x;
        let y = self.cursor_position.y;
        let width = self.terminal.size().width as usize;
        let height = self.terminal.size().height as usize;
        let mut off_x = self.offset.x;
        let mut off_y = self.offset.y;
        if y < off_y {
            off_y = y;
        } else if y >= off_y.saturating_add(height) {
            off_y = y.saturating_sub(height).saturating_add(1);
        }
        if x < off_x {
            off_x = x;
        } else if x >= off_x.saturating_add(width) {
            off_x = x.saturating_sub(width).saturating_add(1);
        }
        self.offset = Position::new(off_x, off_y);
        proof {
            assert(final(self)@ =~= spec_scrolled(old(self)@));
        }
    }

    /// Normal mode: movement, mode changes, and the command prompt.
    fn step_normal(&mut self, key: Key) -> (out: KeyOutcome)
        requires
            old(self)@.mode == PossibleModes::Normal,
        ensures
            final(self)@ == spec_normal_step(old(self)@, key).0,
            out == spec_normal_step(old(self)@, key).1,
    {
        match key {
            Key::Char(c) => {
                if c == 'h' {
                    self.move_cursor(Key::Left);
                    KeyOutcome::Done
                } else if c == 'j' {
                    self.move_cursor(Key::Down);
                    KeyOutcome::Done
                } else if c == 'k' {
                    self.move_cursor(Key::Up);
                    KeyOutcome::Done
                } else if c == 'l' {
                    self.move_cursor(Key::Right);
                    KeyOutcome::Done
                } else if c == '0' {
                    self.move_cursor(Key::Home);
                    KeyOutcome::Done
                } else if c == '$' {
                    self.move_cursor(Key::End);
                    KeyOutcome::Done
                } else if c == 'w' {
                    self.move_cursor_word();
                    KeyOutcome::Done
                } else if c == 'b' {
                    KeyOutcome::Done
                } else if c == 'a' {
                    self.move_cursor(Key::Right);
                    let _style = self.mode.switch(PossibleModes::Insert);
                    proof {
                        assert(self@ =~= spec_normal_step(old(self)@, key).0);
                    }
                    KeyOutcome::Done
                } else if c == 'i' {
                    let _style = self.mode.switch(PossibleModes::Insert);
                    proof {
                        assert(self@ =~= spec_normal_step(old(self)@, key).0);
                    }
                    KeyOutcome::Done
                } else if c == 'v' {
                    let _style = self.mode.switch(PossibleModes::Visual);
                    proof {
                        assert(self@ =~= spec_normal_step(old(self)@, key).0);
                    }
                    KeyOutcome::Done
                } else if c == 'o' {
                    self.move_cursor(Key::Down);
                    let _style = self.mode.switch(PossibleModes::Insert);
                    let pos = self.cursor_position;
                    self.document.insert_newline(&pos);
                    proof {
                        assert(self@ =~= spec_normal_step(old(self)@, key).0);
                    }
                    KeyOutcome::Done
                } else if c == ':' {
                    KeyOutcome::CommandPrompt
                } else {
                    let _style = self.mode.switch(PossibleModes::OperatorPending);
                    proof {
                        assert(self@ =~= spec_normal_step(old(self)@, key).0);
                    }
                    KeyOutcome::Done
                }
            },
            Key::Ctrl(c) => {
                if c == 'd' {
                    self.move_cursor(Key::PageDown);
                } else if c == 'u' {
                    self.move_cursor(Key::PageUp);
                }
                KeyOutcome::Done
            },
            _ => KeyOutcome::Done,
        }
    }

    /// Insert mode: every printable key edits the buffer at the cursor.
    #[verifier::loop_isolation(false)]
    fn step_insert(&mut self, key: Key)
        requires
            old(self)@.mode == PossibleModes::Insert,
        ensures
            final(self)@ == spec_insert_step(old(self)@, key),
    {
        match key {
            Key::Esc => {
                let _style = self.mode.switch(PossibleModes::Normal);
                self.move_cursor(Key::Left);
                proof {
                    assert(self@ =~= spec_insert_step(old(self)@, key));
                }
            },
            Key::Char(c) => {
                let pos = self.cursor_position;
                self.document.insert(&pos, c);
                self.move_cursor(Key::Right);
                proof {
                    assert(self@ =~= spec_insert_step(old(self)@, key));
                }
            },
            Key::Enter => {
                let pos = self.cursor_position;
                self.document.insert_newline(&pos);
                self.move_cursor(Key::Right);
                proof {
                    assert(self@ =~= spec_insert_step(old(self)@, key));
                }
            },
            Key::Delete => {
                let pos = self.cursor_position;
                self.document.delete(&pos);
                proof {
                    assert(self@ =~= spec_insert_step(old(self)@, key));
                }
            },
            Key::Backspace => {
                if self.cursor_position.x > 0 || self.cursor_position.y > 0 {
                    self.move_cursor(Key::Left);
                    let pos = self.cursor_position;
                    self.document.delete(&pos);
                    proof {
                        assert(self@ =~= spec_insert_step(old(self)@, key));
                    }
                }
            },
            Key::Tab => {
                let t = self.config.editor.tab_size;
                let mut i: u8 = 0;
                while i < t
                    invariant
                        0 <= i <= t,
                        spec_tab_insert(self@, (t - i) as nat) == spec_tab_insert(
                            old(self)@,
                            t as nat,
                        ),
                    decreases t - i,
                {
                    let pos = self.cursor_position;
                    let ghost before = self@;
                    self.document.insert(&pos, ' ');
                    self.move_cursor(Key::Right);
                    proof {
                        assert(self@ =~= spec_insert_char(before, ' '));
                    }
                    i += 1;
                }
                proof {
                    assert(spec_tab_insert(self@, (t - t) as nat) == self@);
                    assert(self@ =~= spec_insert_step(old(self)@, key));
                }
            },
            _ => {},
        }
    }

    /// The per-mode dispatch for one key.
    fn step_mode(&mut self, key: Key) -> (out: KeyOutcome)
        ensures
            final(self)@ == spec_mode_step(old(self)@, key).0,
            out == spec_mode_step(old(self)@, key).1,
    {
        let mode = self.mode.current_mode;
        match mode {
            PossibleModes::Normal => self.step_normal(key),
            PossibleModes::Insert => {
                self.step_insert(key);
                KeyOutcome::Done
            },
            PossibleModes::Visual => {
                match key {
                    Key::Esc => {
                        let _style = self.mode.switch(PossibleModes::Normal);
                        proof {
                            assert(self@ =~= spec_mode_step(old(self)@, key).0);
                        }
                    },
                    _ => {},
                }
                KeyOutcome::Done
            },
            PossibleModes::OperatorPending => {
                match key {
                    Key::Esc => {
                        let _style = self.mode.switch(PossibleModes::Normal);
                        proof {
                            assert(self@ =~= spec_mode_step(old(self)@, key).0);
                        }
                    },
                    _ => {},
                }
                KeyOutcome::Done
            },
            _ => KeyOutcome::Done,
        }
    }

    /// Process one keystroke: the per-mode step, then the keys that work
    /// in every mode. Quitting a dirty document takes `QUIT_TIMES`
    /// warnings before it happens; saving and the prompts are handed
    /// back to the application as an outcome.
    pub fn process_keypress(&mut self, key: Key) -> (out: KeyOutcome)
        ensures
            final(self)@ == spec_keypress(old(self)@, key).0,
            out == spec_keypress(old(self)@, key).1,
    {
        let out = self.step_mode(key);
        match key {
            Key::Ctrl(c) => {
                if c == 'q' {
                    if self.quit_times > 0 && self.document.is_dirty() {
                        let warning = if self.quit_times >= 2 {
                            "WARNING: File has unsaved changes. Press Ctrl-Q 2 more times to quit."
                        } else {
                            "WARNING: File has unsaved changes. Press Ctrl-Q 1 more times to quit."
                        };
                        self.status_message = StatusMessage::from(warning.to_owned());
                        self.quit_times = self.quit_times - 1;
                        proof {
                            assert(self@ =~= spec_keypress(old(self)@, key).0);
                        }
                        out
                    } else {
                        self.should_quit = true;
                        self.scroll();
                        proof {
                            assert(self@ =~= spec_keypress(old(self)@, key).0);
                        }
                        out
                    }
                } else if c == 's' {
                    self.scroll();
                    KeyOutcome::Save
                } else if c == 'f' {
                    self.scroll();
                    KeyOutcome::SearchPrompt
                } else {
                    self.scroll();
                    out
                }
            },
            Key::Up | Key::Down | Key::Left | Key::Right | Key::PageUp | Key::PageDown
                | Key::Home | Key::End => {
                self.move_cursor(key);
                self.scroll();
                out
            },
            _ => {
                self.scroll();
                out
            },
        }
    }

    /// One keystroke of the interactive search prompt's callback.
    pub fn search_step(&mut self, key: Key, query: &str, direction: SearchDirection) -> (d:
        SearchDirection)
        ensures
            final(self)@ == spec_search_step(
                old(self)@,
                key,
                grapheme_split(query@),
                direction,
            ).0,
            d == spec_search_step(old(self)@, key, grapheme_split(query@), direction).1,
    {
        let mut dir = direction;
        let mut moved = false;
        match key {
            Key::Right | Key::Down => {
                dir = SearchDirection::Forward;
                self.move_cursor(Key::Right);
                moved = true;
            },
            Key::Left | Key::Up => {
                dir = SearchDirection::Backward;
            },
            _ => {},
        }
        let pos = self.cursor_position;
        match self.document.find(query, &pos, dir) {
            Some(p) => {
                self.cursor_position = p;
                self.scroll();
            },
            None => {
                if moved {
                    self.move_cursor(Key::Left);
                }
            },
        }
        dir
    }

    /// Run one accepted command line: `q`/`quit` quits, `w`/`save` asks
    /// the application to save, anything else reports the unknown
    /// command in the status bar.
    pub fn execute_command(&mut self, command: &str) -> (r: CommandResult)
        ensures
            (command@ == "q"@ || command@ == "quit"@) ==> (final(self)@ == (EditorView {
                should_quit: true,
                ..old(self)@
            }) && r == CommandResult::Quit),
            !(command@ == "q"@ || command@ == "quit"@) && (command@ == "w"@ || command@ == "save"@)
                ==> (final(self)@ == old(self)@ && r == CommandResult::Save),
            !(command@ == "q"@ || command@ == "quit"@ || command@ == "w"@ || command@ == "save"@)
                ==> (final(self)@ == spec_with_status(
                old(self)@,
                "Not an editor command: "@ + command@,
            ) && r == CommandResult::Unrecognized),
    {
        if str_eq(command, "q") || str_eq(command, "quit") {
            self.should_quit = true;
            proof {
                assert(self@ =~= EditorView { should_quit: true, ..old(self)@ });
            }
            CommandResult::Quit
        } else if str_eq(command, "w") || str_eq(command, "save") {
            CommandResult::Save
        } else {
            let text = "Not an editor command: ".to_owned().concat(command);
            self.status_message = StatusMessage::from(text);
            proof {
                assert(self@ =~= spec_with_status(old(self)@, "Not an editor command: "@ + command@));
            }
            CommandResult::Unrecognized
        }
    }

    /// Abandon a prompt: restore the cursor saved when it opened and
    /// bring it back into view.
    pub fn cancel_prompt(&mut self, saved: Position)
        ensures
            final(self)@ == spec_scrolled(
                EditorView { cursor: (saved.x as int, saved.y as int), ..old(self)@ },
            ),
    {
        self.cursor_position = saved;
        self.scroll();
    }

    /// Record the outcome of a save the application performed: success
    /// marks the document clean and says so; failure leaves the buffer
    /// untouched (still dirty) and reports the error.
    pub fn report_save_result(&mut self, saved: bool)
        ensures
            saved ==> final(self)@ == (EditorView {
                doc: DocView {
                    dirty: false,
                    file_type: match old(self)@.doc.file_name {
                        Some(n) => crate::filetype::spec_type_label(
                            crate::filetype::spec_extension(n),
                        ),
                        None => old(self)@.doc.file_type,
                    },
                    ..old(self)@.doc
                },
                status: "File saved successfully."@,
                ..old(self)@
            }),
            !saved ==> final(self)@ == spec_with_status(
                old(self)@,
                "ERROR: Could not save file!"@,
            ),
    {
        if saved {
            self.document.mark_saved();
            self.status_message = StatusMessage::from("File saved successfully.".to_owned());
            proof {
                assert(self@.doc =~= final(self)@.doc);
            }
        } else {
            self.status_message = StatusMessage::from("ERROR: Could not save file!".to_owned());
        }
    }

    /// Note that a save-as prompt was abandoned, so nothing was written.
    pub fn report_save_aborted(&mut self)
        ensures
            final(self)@ == spec_with_status(old(self)@, "File save aborted."@),
    {
        self.status_message = StatusMessage::from("File save aborted.".to_owned());
    }

    /// Replace the status message.
    pub fn set_status(&mut self, text: String)
        ensures
            final(self)@ == spec_with_status(old(self)@, text@),
    {
        self.status_message = StatusMessage::from(text);
    }

    /// Word-wise movement; not yet wired to any motion.
    pub fn move_cursor_word(&mut self)
        ensures
            *final(self) == *old(self),
    {
    }

    pub fn should_quit(&self) -> (b: bool)
        ensures
            b == self@.should_quit,
    {
        self.should_quit
    }

    pub fn cursor_position(&self) -> (p: Position)
        ensures
            p.x as int == self@.cursor.0,
            p.y as int == self@.cursor.1,
    {
        self.cursor_position
    }

    pub fn offset(&self) -> (p: Position)
        ensures
            p.x as int == self@.offset.0,
            p.y as int == self@.offset.1,
    {
        self.offset
    }

    pub fn current_mode(&self) -> (m: PossibleModes)
        ensures
            m == self@.mode,
    {
        self.mode.current_mode
    }

    pub fn status_text(&self) -> (s: &String)
        ensures
            s@ == self@.status,
    {
        &self.status_message.text
    }

    pub fn quit_times(&self) -> (n: u8)
        ensures
            n as int == self@.quit_times,
    {
        self.quit_times
    }

    pub fn terminal(&self) -> (t: &Terminal)
        ensures
            t.spec_width() as int == self@.width,
            t.spec_height() as int == self@.height,
    {
        &self.terminal
    }

    pub fn config(&self) -> (c: &Settings)
        ensures
            c@ == self@.config,
    {
        &self.config
    }
}

/// One keystroke of the generic line-editing prompt: printable keys
/// extend the pending line, backspace removes its last character, Enter
/// accepts it, Esc abandons it (clearing the line).
pub fn prompt_step(result: &mut String, key: Key) -> (st: PromptStatus)
    ensures
        match key {
            Key::Char(c) => final(result)@ == old(result)@.push(c) && st == PromptStatus::Pending,
            Key::Backspace => final(result)@ == old(result)@.take(
                if old(result)@.len() > 0 {
                    old(result)@.len() - 1
                } else {
                    0
                },
            ) && st == PromptStatus::Pending,
            Key::Enter => final(result)@ == old(result)@ && st == PromptStatus::Accept,
            Key::Esc => final(result)@ == Seq::<char>::empty() && st == PromptStatus::Cancel,
            _ => final(result)@ == old(result)@ && st == PromptStatus::Pending,
        },
{
    match key {
        Key::Char(c) => {
            let g = char_to_string(c);
            result.append(g.as_str());
            proof {
                assert(result@ =~= old(result)@.push(c));
            }
            PromptStatus::Pending
        },
        Key::Backspace => {
            let n = result.unicode_len();
            if n > 0 {
                let trimmed = String::from_str(result.as_str().substring_char(0, n - 1));
                proof {
                    assert(trimmed@ =~= old(result)@.take(n - 1));
                }
                *result = trimmed;
            } else {
                proof {
                    assert(result@ =~= old(result)@.take(0int));
                }
            }
            PromptStatus::Pending
        },
        Key::Enter => PromptStatus::Accept,
        Key::Esc => {
            *result = String::new();
            PromptStatus::Cancel
        },
        _ => PromptStatus::Pending,
    }
}

/// With a dirty document and the quit countdown full, the first two quit
/// signals only warn and count down; the third actually quits. The count
/// and the dirty flag are untouched by the per-mode step for a control
/// key, in every mode.
pub proof fn lemma_quit_takes_three_presses(v: EditorView)
    requires
        v.doc.dirty,
        v.quit_times == QUIT_TIMES as int,
        !v.should_quit,
    ensures
        ({
            let v1 = spec_keypress(v, Key::Ctrl('q')).0;
            let v2 = spec_keypress(v1, Key::Ctrl('q')).0;
            let v3 = spec_keypress(v2, Key::Ctrl('q')).0;
            !v1.should_quit && v1.quit_times == 1 && v1.doc == v.doc && v1.status
                == spec_quit_warning(2) && !v2.should_quit && v2.quit_times == 0 && v2.doc == v.doc
                && v2.status == spec_quit_warning(1) && v3.should_quit
        }),
{
}

} // verus!

//! The editor's state and how events change it.

use vstd::prelude::*;
use crate::buffer::Buffer;
use crate::cursor::{land, landing_col, scrolled_back, scrolled_forth, scrolled_to, shows};
use crate::input::{is_printable, printable, InputEvent, Key};
use crate::render::RenderInfo;
use crate::text::{
    lemma_insert_in_line, lemma_insert_line_feed, lemma_line_bounds, line_count, line_len,
    offset_of,
};

verus! {

/// Whether keys move the cursor and give commands, or enter text.
#[derive(Debug, Clone, Copy, PartialEq, Eq, Structural)]
pub enum Mode {
    Normal,
    Insert,
}

/// Longest time, in nanoseconds, for which events are gathered before the
/// screen is drawn again: 50 milliseconds.
pub const MAX_RENDER_DELAY: u64 = 50_000_000;

/// What the loop that runs the editor has to do next.
#[derive(Debug)]
pub enum Step {
    /// Wait for an event, for at most this many nanoseconds, and hand it to
    /// [`RunningEditor::handle_input`].
    Wait(u64),
    /// Draw this copy of the state, then begin a new round.
    Render(RenderInfo),
    /// Nothing has changed: begin a new round.
    Idle,
    /// The editor was stopped: leave the loop.
    Stop,
}

/// The state of a running editor.
#[derive(Debug)]
pub struct RunningEditor {
    /// False once the editor was told to stop.
    pub running: bool,
    pub buffers: Vec<Buffer>,
    /// Index into `buffers` of the buffer that is shown and edited.
    pub cur_buf: usize,
    /// Column and row of the cursor in the current buffer.
    pub cursor: (usize, usize),
    /// Column that vertical moves aim for.
    pub wanted_col: usize,
    /// Columns and rows of the window.
    pub window_size: (usize, usize),
    /// Column and row of the text that the first cell of the window shows.
    pub scroll: (usize, usize),
    /// True when the state has changed since it was last drawn.
    pub screen_dirty: bool,
    pub mode: Mode,
}

/// The editor's state as mathematics: the text of the current buffer and
/// the numbers that describe the view onto it.
pub struct EditorModel {
    pub running: bool,
    pub text: Seq<char>,
    pub cursor: (int, int),
    pub wanted_col: int,
    pub window_size: (int, int),
    pub scroll: (int, int),
    pub screen_dirty: bool,
    pub mode: Mode,
}

/// Greatest column that the cursor may take in a row of `row_len`
/// characters: in insert mode the place after the last character, in normal
/// mode the last character itself.
pub open spec fn max_col(mode: Mode, row_len: int) -> int {
    match mode {
        Mode::Insert => row_len,
        Mode::Normal => if row_len > 0 {
            row_len - 1
        } else {
            0
        },
    }
}

/// Computes [`max_col`].
pub fn max_column(mode: Mode, row_len: usize) -> (col: usize)
    ensures
        col == max_col(mode, row_len as int),
{
    match mode {
        Mode::Insert => row_len,
        Mode::Normal => if row_len > 0 {
            row_len - 1
        } else {
            0
        },
    }
}

impl EditorModel {
    /// The cursor is on a row of the text, at a column that the mode allows.
    pub open spec fn cursor_valid(self) -> bool {
        &&& 0 <= self.cursor.1 < line_count(self.text)
        &&& 0 <= self.cursor.0 <= max_col(self.mode, line_len(self.text, self.cursor.1))
    }

    /// The window shows the cursor.
    pub open spec fn cursor_visible(self) -> bool {
        &&& shows(self.scroll.0, self.cursor.0, self.window_size.0)
        &&& shows(self.scroll.1, self.cursor.1, self.window_size.1)
    }

    /// The state after the window was scrolled to show the cursor.
    pub open spec fn scrolled(self) -> EditorModel {
        EditorModel {
            scroll: (
                scrolled_to(self.scroll.0, self.cursor.0, self.window_size.0),
                scrolled_to(self.scroll.1, self.cursor.1, self.window_size.1),
            ),
            ..self
        }
    }

    /// The state with the screen marked as out of date.
    pub open spec fn marked(self) -> EditorModel {
        EditorModel { screen_dirty: true, ..self }
    }

    /// The state after a move of the cursor one row up.
    pub open spec fn moved_up(self) -> EditorModel {
        if self.cursor.1 > 0 {
            EditorModel {
                cursor: (
                    landing_col(self.wanted_col, line_len(self.text, self.cursor.1 - 1)),
                    self.cursor.1 - 1,
                ),
                ..self
            }.scrolled()
        } else {
            self
        }
    }

    /// The state after a move of the cursor one row down.
    pub open spec fn moved_down(self) -> EditorModel {
        if self.cursor.1 + 1 < line_count(self.text) {
            EditorModel {
                cursor: (
                    landing_col(self.wanted_col, line_len(self.text, self.cursor.1 + 1)),
                    self.cursor.1 + 1,
                ),
                ..self
            }.scrolled()
        } else {
            self
        }
    }

    /// The state after a move of the cursor one column left.
    pub open spec fn moved_left(self) -> EditorModel {
        if self.cursor.0 > 0 {
            EditorModel {
                cursor: (self.cursor.0 - 1, self.cursor.1),
                wanted_col: self.cursor.0 - 1,
                ..self
            }.scrolled()
        } else {
            self
        }
    }

    /// The state after a move of the cursor one column right, as far as the
    /// mode allows.
    pub open spec fn moved_right(self) -> EditorModel {
        if self.cursor.0 < max_col(self.mode, line_len(self.text, self.cursor.1)) {
            EditorModel {
                cursor: (self.cursor.0 + 1, self.cursor.1),
                wanted_col: self.cursor.0 + 1,
                ..self
            }.scrolled()
        } else {
            self
        }
    }

    /// Index into the text of the cursor's place.
    pub open spec fn cursor_offset(self) -> int {
        offset_of(self.text, self.cursor.0, self.cursor.1)
    }

    /// The state after `c` was typed in insert mode: the character stands
    /// at the cursor's old place and the cursor has moved right.
    pub open spec fn typed(self, c: char) -> EditorModel {
        EditorModel { text: self.text.insert(self.cursor_offset(), c), ..self }.moved_right().marked()
    }

    /// The state after the line was broken at the cursor in insert mode:
    /// the cursor is at the start of the row that the break began and the
    /// wanted column is zero. A break at the very end of the text begins no
    /// row, and the cursor then goes to the start of its own.
    pub open spec fn line_broken(self) -> EditorModel {
        let text = self.text.insert(self.cursor_offset(), '\n');
        let row = if self.cursor.1 + 1 < line_count(text) {
            self.cursor.1 + 1
        } else {
            self.cursor.1
        };
        EditorModel { text, cursor: (0, row), wanted_col: 0, ..self }.scrolled().marked()
    }

    /// The state after insert mode was left for normal mode: a cursor that
    /// stood after the last character of its row now stands on it.
    pub open spec fn left_insert(self) -> EditorModel {
        let len = line_len(self.text, self.cursor.1);
        let col = if self.cursor.0 >= len {
            max_col(Mode::Normal, len)
        } else {
            self.cursor.0
        };
        EditorModel {
            mode: Mode::Normal,
            cursor: (col, self.cursor.1),
            ..self
        }.scrolled().marked()
    }

    /// The state after the window took a new size.
    pub open spec fn resized(self, width: int, height: int) -> EditorModel {
        EditorModel { window_size: (width, height), ..self }.scrolled().marked()
    }

    /// The state after a move, marked as out of date if the cursor moved.
    pub open spec fn marked_if_moved(self, after: EditorModel) -> EditorModel {
        if after.cursor != self.cursor {
            after.marked()
        } else {
            after
        }
    }

    /// The state after a key was pressed in normal mode.
    pub open spec fn normal_key(self, key: Key) -> EditorModel {
        match key {
            Key::Esc => EditorModel { running: false, ..self },
            Key::Char('i') => EditorModel { mode: Mode::Insert, ..self }.marked(),
            Key::Char('a') => EditorModel { mode: Mode::Insert, ..self }.moved_right().marked(),
            Key::Char('h') => self.marked_if_moved(self.moved_left()),
            Key::Char('j') => self.marked_if_moved(self.moved_down()),
            Key::Char('k') => self.marked_if_moved(self.moved_up()),
            Key::Char('l') => self.marked_if_moved(self.moved_right()),
            _ => self.marked(),
        }
    }

    /// The state after a key was pressed in insert mode.
    pub open spec fn insert_key(self, key: Key) -> EditorModel {
        match key {
            Key::Esc => self.left_insert(),
            Key::Enter => self.line_broken(),
            Key::Char(c) => if is_printable(c) {
                self.typed(c)
            } else {
                self.marked()
            },
            Key::Other => self.marked(),
        }
    }

    /// The state after an event.
    pub open spec fn step(self, event: InputEvent) -> EditorModel {
        match event {
            InputEvent::Key(key) => match self.mode {
                Mode::Normal => self.normal_key(key),
                Mode::Insert => self.insert_key(key),
            },
            InputEvent::Resize(width, height) => self.resized(width as int, height as int),
            InputEvent::Other => self,
        }
    }
}

/// Scrolling to the cursor leaves a window alone that shows the cursor, and
/// scrolling twice is scrolling once.
pub proof fn lemma_scrolled_once(m: EditorModel)
    ensures
        m.cursor_visible() ==> m.scrolled() == m,
        m.scrolled().scrolled() == m.scrolled(),
        m.window_size.0 > 0 && m.window_size.1 > 0 ==> m.scrolled().cursor_visible(),
{
}

/// A move down and a move back up keep the wanted column, and bring the
/// cursor to it if its row has a character there; likewise up and back
/// down.
pub proof fn lemma_column_restored(m: EditorModel)
    requires
        0 <= m.cursor.1 < line_count(m.text),
        0 <= m.wanted_col < line_len(m.text, m.cursor.1) || m.wanted_col == 0,
    ensures
        m.moved_down().moved_up().wanted_col == m.wanted_col,
        m.moved_up().moved_down().wanted_col == m.wanted_col,
        m.cursor.1 + 1 < line_count(m.text) ==> m.moved_down().moved_up().cursor == (
            m.wanted_col,
            m.cursor.1,
        ),
        m.cursor.1 > 0 ==> m.moved_up().moved_down().cursor == (m.wanted_col, m.cursor.1),
{
}

impl View for RunningEditor {
    type V = EditorModel;

    open spec fn view(&self) -> EditorModel {
        EditorModel {
            running: self.running,
            text: self.buffers[self.cur_buf as int]@,
            cursor: (self.cursor.0 as int, self.cursor.1 as int),
            wanted_col: self.wanted_col as int,
            window_size: (self.window_size.0 as int, self.window_size.1 as int),
            scroll: (self.scroll.0 as int, self.scroll.1 as int),
            screen_dirty: self.screen_dirty,
            mode: self.mode,
        }
    }
}

impl RunningEditor {
    /// The current buffer exists and the cursor is at a place of its text
    /// that the mode allows.
    pub open spec fn wf(&self) -> bool {
        &&& self.cur_buf < self.buffers.len()
        &&& self@.cursor_valid()
    }

    /// Both editors hold the same buffers and show the same one.
    pub open spec fn same_buffers(&self, other: &RunningEditor) -> bool {
        self.buffers == other.buffers && self.cur_buf == other.cur_buf
    }

    /// Both editors show the buffer of the same index, and their other
    /// buffers are the same.
    pub open spec fn same_other_buffers(&self, other: &RunningEditor) -> bool {
        &&& self.cur_buf == other.cur_buf
        &&& self.buffers.len() == other.buffers.len()
        &&& forall|i: int|
            0 <= i < self.buffers.len() && i != self.cur_buf ==> self.buffers[i]
                == other.buffers[i]
    }

    /// An editor on `buf` in a window of `window_size` columns and rows:
    /// not yet running, in normal mode, the cursor at the start of the
    /// text, and the screen still to be drawn. The editor is well formed
    /// if the text has a line for the cursor to stand on.
    pub fn with_buf(buf: Buffer, window_size: (usize, usize)) -> (editor: Self)
        ensures
            editor.buffers@ == seq![buf],
            editor.cur_buf == 0,
            editor@ == (EditorModel {
                running: false,
                text: buf@,
                cursor: (0, 0),
                wanted_col: 0,
                window_size: (window_size.0 as int, window_size.1 as int),
                scroll: (0, 0),
                screen_dirty: true,
                mode: Mode::Normal,
            }),
            editor.wf() <==> line_count(buf@) > 0,
            window_size.0 > 0 && window_size.1 > 0 ==> editor@.cursor_visible(),
    {
        let mut buffers = Vec::new();
        buffers.push(buf);
        RunningEditor {
            buffers,
            cur_buf: 0,
            screen_dirty: true,
            running: false,
            window_size,
            cursor: (0, 0),
            wanted_col: 0,
            scroll: (0, 0),
            mode: Mode::Normal,
        }
    }

    /// An editor on an empty buffer. An empty text has no line for the
    /// cursor to stand on: the editor is not well formed before its buffer
    /// is given a text.
    pub fn new(window_size: (usize, usize)) -> (editor: Self)
        ensures
            !editor.wf(),
            editor.buffers.len() == 1,
            editor.cur_buf == 0,
            editor@ == (EditorModel {
                running: false,
                text: Seq::<char>::empty(),
                cursor: (0, 0),
                wanted_col: 0,
                window_size: (window_size.0 as int, window_size.1 as int),
                scroll: (0, 0),
                screen_dirty: true,
                mode: Mode::Normal,
            }),
    {
        Self::with_buf(Buffer::default(), window_size)
    }

    /// Marks the screen as out of date.
    pub fn mark_dirty(&mut self)
        ensures
            final(self)@ == old(self)@.marked(),
            final(self).same_buffers(old(self)),
    {
        self.screen_dirty = true;
    }

    /// Scrolls up to the cursor's row if it lies above the window.
    pub fn check_scroll_up(&mut self)
        ensures
            final(self)@ == (EditorModel {
                scroll: (old(self)@.scroll.0, scrolled_back(old(self)@.scroll.1, old(self)@.cursor.1)),
                ..old(self)@
            }),
            final(self).same_buffers(old(self)),
    {
        if self.cursor.1 < self.scroll.1 {
            self.scroll.1 = self.cursor.1;
        }
    }

    /// Scrolls down until the cursor's row is the last of the window, if it
    /// lies below the window. A window without rows is left where it is.
    pub fn check_scroll_down(&mut self)
        ensures
            final(self)@ == (EditorModel {
                scroll: (
                    old(self)@.scroll.0,
                    scrolled_forth(
                        old(self)@.scroll.1,
                        old(self)@.cursor.1,
                        old(self)@.window_size.1,
                    ),
                ),
                ..old(self)@
            }),
            final(self).same_buffers(old(self)),
    {
        if self.window_size.1 > 0 && self.cursor.1 >= self.scroll.1 && self.cursor.1
            - self.scroll.1 >= self.window_size.1 {
            self.scroll.1 = self.cursor.1 - self.window_size.1 + 1;
        }
    }

    /// Scrolls left to the cursor's column if it lies left of the window.
    pub fn check_scroll_left(&mut self)
        ensures
            final(self)@ == (EditorModel {
                scroll: (scrolled_back(old(self)@.scroll.0, old(self)@.cursor.0), old(self)@.scroll.1),
                ..old(self)@
            }),
            final(self).same_buffers(old(self)),
    {
        if self.cursor.0 < self.scroll.0 {
            self.scroll.0 = self.cursor.0;
        }
    }

    /// Scrolls right until the cursor's column is the last of the window,
    /// if it lies right of the window. A window without columns is left
    /// where it is.
    pub fn check_scroll_right(&mut self)
        ensures
            final(self)@ == (EditorModel {
                scroll: (
                    scrolled_forth(
                        old(self)@.scroll.0,
                        old(self)@.cursor.0,
                        old(self)@.window_size.0,
                    ),
                    old(self)@.scroll.1,
                ),
                ..old(self)@
            }),
            final(self).same_buffers(old(self)),
    {
        if self.window_size.0 > 0 && self.cursor.0 >= self.scroll.0 && self.cursor.0
            - self.scroll.0 >= self.window_size.0 {
            self.scroll.0 = self.cursor.0 - self.window_size.0 + 1;
        }
    }

    /// Scrolls the window by the least amount that shows the cursor: back if
    /// the cursor lies before the window, forth if it lies past it, along
    /// each axis.
    pub fn scroll_to_cursor(&mut self)
        ensures
            final(self)@ == old(self)@.scrolled(),
            final(self).same_buffers(old(self)),
            old(self).window_size.0 > 0 && old(self).window_size.1 > 0
                ==> final(self)@.cursor_visible(),
    {
        self.check_scroll_up();
        self.check_scroll_down();
        self.check_scroll_left();
        self.check_scroll_right();
    }

    /// Moves the cursor one row up, if there is one, to the wanted column
    /// or the end of that row, and scrolls to it. Returns whether the
    /// cursor moved.
    pub fn move_cursor_up(&mut self) -> (moved: bool)
        requires
            old(self).wf(),
        ensures
            final(self)@ == old(self)@.moved_up(),
            final(self).wanted_col == old(self).wanted_col,
            moved == (old(self).cursor.1 > 0),
            final(self).same_buffers(old(self)),
            final(self).wf(),
    {
        if self.cursor.1 > 0 {
            self.cursor.1 = self.cursor.1 - 1;
            let row_len = self.buffers[self.cur_buf].row_len(self.cursor.1);
            self.cursor.0 = land(self.wanted_col, row_len);
            self.scroll_to_cursor();
            return true;
        }
        false
    }

    /// Moves the cursor one row down, if there is one, to the wanted column
    /// or the end of that row, and scrolls to it. Returns whether the
    /// cursor moved.
    pub fn move_cursor_down(&mut self) -> (moved: bool)
        requires
            old(self).wf(),
        ensures
            final(self)@ == old(self)@.moved_down(),
            final(self).wanted_col == old(self).wanted_col,
            moved == (old(self).cursor.1 + 1 < line_count(old(self)@.text)),
            final(self).same_buffers(old(self)),
            final(self).wf(),
    {
        let num_rows = self.buffers[self.cur_buf].num_rows();
        if self.cursor.1 + 1 < num_rows {
            self.cursor.1 = self.cursor.1 + 1;
            let row_len = self.buffers[self.cur_buf].row_len(self.cursor.1);
            self.cursor.0 = land(self.wanted_col, row_len);
            self.scroll_to_cursor();
            return true;
        }
        false
    }

    /// Moves the cursor one column left, if there is one, makes that the
    /// wanted column, and scrolls to it. Returns whether the cursor moved.
    pub fn move_cursor_left(&mut self) -> (moved: bool)
        requires
            old(self).wf(),
        ensures
            final(self)@ == old(self)@.moved_left(),
            moved == (old(self).cursor.0 > 0),
            final(self).same_buffers(old(self)),
            final(self).wf(),
    {
        if self.cursor.0 > 0 {
            self.cursor.0 = self.cursor.0 - 1;
            self.wanted_col = self.cursor.0;
            self.scroll_to_cursor();
            return true;
        }
        false
    }

    /// Moves the cursor one column right, if the mode allows that column,
    /// makes it the wanted column, and scrolls to it. Returns whether the
    /// cursor moved.
    pub fn move_cursor_right(&mut self) -> (moved: bool)
        requires
            old(self).wf(),
        ensures
            final(self)@ == old(self)@.moved_right(),
            moved == (old(self)@.cursor.0 < max_col(
                old(self).mode,
                line_len(old(self)@.text, old(self)@.cursor.1),
            )),
            final(self).same_buffers(old(self)),
            final(self).wf(),
    {
        let row_len = self.buffers[self.cur_buf].row_len(self.cursor.1);
        if self.cursor.0 < max_column(self.mode, row_len) {
            self.cursor.0 = self.cursor.0 + 1;
            self.wanted_col = self.cursor.0;
            self.scroll_to_cursor();
            return true;
        }
        false
    }

    /// Insert mode: puts `c` into the text at the cursor and moves the
    /// cursor past it.
    pub fn type_char(&mut self, c: char)
        requires
            old(self).wf(),
            old(self).mode == Mode::Insert,
            is_printable(c),
        ensures
            final(self)@ == old(self)@.typed(c),
            final(self)@.cursor == (old(self)@.cursor.0 + 1, old(self)@.cursor.1),
            final(self).same_other_buffers(old(self)),
            final(self).wf(),
    {
        let (col, row) = self.cursor;
        proof {
            lemma_insert_in_line(self@.text, col as int, row as int, c);
        }
        let cur = self.cur_buf;
        self.buffers[cur].insert(col, row, c);
        self.move_cursor_right();
        self.mark_dirty();
    }

    /// Insert mode: breaks the line at the cursor and puts the cursor at
    /// the start of the row that begins there.
    pub fn break_line(&mut self)
        requires
            old(self).wf(),
            old(self).mode == Mode::Insert,
        ensures
            final(self)@ == old(self)@.line_broken(),
            final(self)@.cursor == (
                0int,
                if old(self)@.cursor_offset() < old(self)@.text.len() {
                    old(self)@.cursor.1 + 1
                } else {
                    old(self)@.cursor.1
                },
            ),
            final(self).same_other_buffers(old(self)),
            final(self).wf(),
    {
        let (col, row) = self.cursor;
        proof {
            lemma_insert_line_feed(self@.text, col as int, row as int);
        }
        let cur = self.cur_buf;
        self.buffers[cur].insert(col, row, '\n');
        let num_rows = self.buffers[cur].num_rows();
        if row + 1 < num_rows {
            self.cursor.1 = row + 1;
        }
        self.cursor.0 = 0;
        self.wanted_col = 0;
        proof {
            lemma_line_bounds(self@.text, self.cursor.1 as int);
        }
        self.scroll_to_cursor();
        self.mark_dirty();
    }

    /// Leaves insert mode for normal mode; a cursor that stood after the
    /// last character of its row steps back onto it.
    pub fn leave_insert(&mut self)
        requires
            old(self).wf(),
        ensures
            final(self)@ == old(self)@.left_insert(),
            final(self).same_buffers(old(self)),
            final(self).wf(),
    {
        self.mode = Mode::Normal;
        let row_len = self.buffers[self.cur_buf].row_len(self.cursor.1);
        if self.cursor.0 >= row_len {
            self.cursor.0 = max_column(Mode::Normal, row_len);
        }
        self.scroll_to_cursor();
        self.mark_dirty();
    }

    /// Takes the new size of the window and scrolls so that it shows the
    /// cursor.
    pub fn resize(&mut self, width: u16, height: u16)
        ensures
            final(self)@ == old(self)@.resized(width as int, height as int),
            final(self).same_buffers(old(self)),
            width > 0 && height > 0 ==> final(self)@.cursor_visible(),
    {
        self.window_size = (width as usize, height as usize);
        self.scroll_to_cursor();
        self.mark_dirty();
    }

    /// Decides whether the state is well formed.
    pub fn is_well_formed(&self) -> (ok: bool)
        ensures
            ok == self.wf(),
    {
        if self.cur_buf >= self.buffers.len() {
            return false;
        }
        let buf = &self.buffers[self.cur_buf];
        if self.cursor.1 >= buf.num_rows() {
            return false;
        }
        self.cursor.0 <= max_column(self.mode, buf.row_len(self.cursor.1))
    }

    /// Says what the loop that runs the editor does next, `elapsed`
    /// nanoseconds into a round.
    ///
    /// While the round lasts, the loop waits for events for the rest of the
    /// round. At its end a stopped editor leaves the loop. Otherwise the
    /// screen is drawn if it is out of date, from a copy of the state taken
    /// now, and counts as up to date from then on; so each round draws at
    /// most once, and what it draws shows every event of the round.
    pub fn run(&mut self, elapsed: u64) -> (step: Step)
        requires
            old(self).cur_buf < old(self).buffers.len(),
        ensures
            final(self).same_buffers(old(self)),
            match step {
                Step::Wait(remaining) => {
                    &&& elapsed < MAX_RENDER_DELAY
                    &&& remaining == MAX_RENDER_DELAY - elapsed
                    &&& final(self)@ == old(self)@
                },
                Step::Stop => {
                    &&& elapsed >= MAX_RENDER_DELAY
                    &&& !old(self).running
                    &&& final(self)@ == old(self)@
                },
                Step::Render(info) => {
                    &&& elapsed >= MAX_RENDER_DELAY
                    &&& old(self).running
                    &&& old(self).screen_dirty
                    &&& info.shows(old(self))
                    &&& final(self)@ == (EditorModel { screen_dirty: false, ..old(self)@ })
                },
                Step::Idle => {
                    &&& elapsed >= MAX_RENDER_DELAY
                    &&& old(self).running
                    &&& !old(self).screen_dirty
                    &&& final(self)@ == old(self)@
                },
            },
    {
        if elapsed < MAX_RENDER_DELAY {
            return Step::Wait(MAX_RENDER_DELAY - elapsed);
        }
        if !self.running {
            return Step::Stop;
        }
        if self.screen_dirty {
            let info = RenderInfo::from(self);
            self.screen_dirty = false;
            return Step::Render(info);
        }
        Step::Idle
    }

    /// Applies one event to the state.
    ///
    /// In normal mode `Esc` stops the editor, `i` enters insert mode, `a`
    /// enters insert mode one column to the right, and `h`, `j`, `k`, `l`
    /// move the cursor left, down, up and right. In insert mode `Esc`
    /// returns to normal mode, `Enter` breaks the line and a printable
    /// character is inserted. Every change of what the screen shows marks
    /// the screen as out of date, and so does a key that has no meaning in
    /// the mode; a move that cannot be made does not.
    pub fn handle_input(&mut self, event: InputEvent)
        requires
            old(self).wf(),
        ensures
            final(self)@ == old(self)@.step(event),
            final(self).same_other_buffers(old(self)),
            final(self).wf(),
            old(self)@.cursor_visible() && !(event is Resize) ==> final(self)@.cursor_visible(),
            event matches InputEvent::Resize(width, height) && width > 0 && height > 0
                ==> final(self)@.cursor_visible(),
    {
        proof {
            lemma_line_bounds(self@.text, self.cursor.1 as int);
        }
        match event {
            InputEvent::Key(key) => match self.mode {
                Mode::Normal => match key {
                    Key::Esc => {
                        self.running = false;
                    },
                    Key::Char(c) => {
                        if c == 'i' {
                            self.mode = Mode::Insert;
                            self.mark_dirty();
                        } else if c == 'a' {
                            self.mode = Mode::Insert;
                            self.move_cursor_right();
                            self.mark_dirty();
                        } else if c == 'h' {
                            if self.move_cursor_left() {
                                self.mark_dirty();
                            }
                        } else if c == 'j' {
                            if self.move_cursor_down() {
                                self.mark_dirty();
                            }
                        } else if c == 'k' {
                            if self.move_cursor_up() {
                                self.mark_dirty();
                            }
                        } else if c == 'l' {
                            if self.move_cursor_right() {
                                self.mark_dirty();
                            }
                        } else {
                            self.mark_dirty();
                        }
                    },
                    _ => {
                        self.mark_dirty();
                    },
                },
                Mode::Insert => match key {
                    Key::Esc => {
                        self.leave_insert();
                    },
                    Key::Enter => {
                        self.break_line();
                    },
                    Key::Char(c) => {
                        if printable(c) {
                            self.type_char(c);
                        } else {
                            self.mark_dirty();
                        }
                    },
                    Key::Other => {
                        self.mark_dirty();
                    },
                },
            },
            InputEvent::Resize(width, height) => {
                self.resize(width, height);
            },
            InputEvent::Other => {},
        }
    }
}

} // verus!

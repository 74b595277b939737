//! The cursor and the scrolling of the window that shows it.
//!
//! The cursor keeps no reference to a text: each move is given the length
//! of the row it concerns. Besides its place the cursor remembers the column
//! that was last chosen by a horizontal move, and comes back to it when a
//! vertical move reaches a row that is long enough.

use vstd::prelude::*;

verus! {

/// A place in a text, with the column that vertical moves aim for.
#[derive(Debug, Clone, Copy, PartialEq, Eq, Structural)]
pub struct Cursor {
    pub col: usize,
    pub row: usize,
    pub wanted_col: usize,
}

/// Column on which a vertical move lands in a row of `row_len` characters:
/// the wanted column, or the last character of the row when the row is too
/// short; column zero in an empty row.
pub open spec fn landing_col(wanted_col: int, row_len: int) -> int {
    if row_len <= 0 {
        0
    } else if wanted_col < row_len {
        wanted_col
    } else {
        row_len - 1
    }
}

/// Computes [`landing_col`].
pub fn land(wanted_col: usize, row_len: usize) -> (col: usize)
    ensures
        col == landing_col(wanted_col as int, row_len as int),
{
    if row_len == 0 {
        0
    } else if wanted_col < row_len {
        wanted_col
    } else {
        row_len - 1
    }
}

/// Scroll offset that shows a cursor which lies before the window: the
/// window moves back to start at the cursor. Otherwise the offset stays.
pub open spec fn scrolled_back(scroll: int, at: int) -> int {
    if at < scroll {
        at
    } else {
        scroll
    }
}

/// Scroll offset that shows a cursor which lies past the window: the window
/// moves forth until the cursor is its last cell. Otherwise the offset
/// stays. A window without cells shows nothing and is left where it is.
pub open spec fn scrolled_forth(scroll: int, at: int, window: int) -> int {
    if window > 0 && at >= scroll + window {
        at - window + 1
    } else {
        scroll
    }
}

/// Scroll offset after both adjustments, along one axis.
pub open spec fn scrolled_to(scroll: int, at: int, window: int) -> int {
    scrolled_forth(scrolled_back(scroll, at), at, window)
}

/// True when the window of `window` cells that starts at `scroll` holds the
/// index `at`.
pub open spec fn shows(scroll: int, at: int, window: int) -> bool {
    scroll <= at < scroll + window
}

/// After the adjustment the window shows the cursor, whatever the offset
/// was before, and the cursor's place relative to the window is a cell of
/// the window.
pub proof fn lemma_scrolled_shows(scroll: int, at: int, window: int)
    requires
        0 <= scroll,
        0 <= at,
        0 < window,
    ensures
        shows(scrolled_to(scroll, at, window), at, window),
        0 <= at - scrolled_to(scroll, at, window) < window,
        0 <= scrolled_to(scroll, at, window),
{
}

/// The adjustment leaves alone an offset whose window shows the cursor.
pub proof fn lemma_scrolled_idempotent(scroll: int, at: int, window: int)
    ensures
        shows(scroll, at, window) ==> scrolled_to(scroll, at, window) == scroll,
        scrolled_to(scrolled_to(scroll, at, window), at, window) == scrolled_to(
            scroll,
            at,
            window,
        ),
{
}

/// The adjusted offset is the nearest one that shows the cursor.
pub proof fn lemma_scrolled_minimal(scroll: int, at: int, window: int, other: int)
    requires
        shows(other, at, window),
    ensures
        abs_diff(scrolled_to(scroll, at, window), scroll) <= abs_diff(other, scroll),
{
}

/// Distance between two offsets.
pub open spec fn abs_diff(a: int, b: int) -> int {
    if a >= b {
        a - b
    } else {
        b - a
    }
}

impl Cursor {
    /// The cursor after a move up onto a row of `row_len` characters.
    pub open spec fn moved_up(self, row_len: usize) -> Cursor {
        if self.row > 0 {
            Cursor {
                col: landing_col(self.wanted_col as int, row_len as int) as usize,
                row: (self.row - 1) as usize,
                wanted_col: self.wanted_col,
            }
        } else {
            self
        }
    }

    /// The cursor after a move down onto a row of `row_len` characters, in
    /// a text of `num_rows` rows.
    pub open spec fn moved_down(self, row_len: usize, num_rows: usize) -> Cursor {
        if self.row + 1 < num_rows {
            Cursor {
                col: landing_col(self.wanted_col as int, row_len as int) as usize,
                row: (self.row + 1) as usize,
                wanted_col: self.wanted_col,
            }
        } else {
            self
        }
    }

    /// The cursor after a move right in a row of `row_len` characters.
    pub open spec fn moved_right(self, row_len: usize) -> Cursor {
        if self.col + 1 < row_len {
            Cursor {
                col: (self.col + 1) as usize,
                row: self.row,
                wanted_col: (self.col + 1) as usize,
            }
        } else {
            self
        }
    }

    /// The cursor after a move left.
    pub open spec fn moved_left(self) -> Cursor {
        if self.col > 0 {
            Cursor {
                col: (self.col - 1) as usize,
                row: self.row,
                wanted_col: (self.col - 1) as usize,
            }
        } else {
            self
        }
    }

    /// The cursor at the start of the text.
    pub fn new() -> (cursor: Self)
        ensures
            cursor == (Cursor { col: 0, row: 0, wanted_col: 0 }),
    {
        Cursor { col: 0, row: 0, wanted_col: 0 }
    }

    /// Moves one row up, if there is one, onto a row of `row_len`
    /// characters. The wanted column stays. Returns whether a row is left
    /// above the cursor after the move.
    pub fn move_up(&mut self, row_len: usize) -> (more: bool)
        ensures
            *final(self) == old(self).moved_up(row_len),
            final(self).wanted_col == old(self).wanted_col,
            more == (final(self).row > 0),
    {
        if self.row > 0 {
            self.row = self.row - 1;
            self.col = land(self.wanted_col, row_len);
        }
        self.row > 0
    }

    /// Moves one column right, if a character of the row lies there, and
    /// makes that the wanted column. Returns whether a character is left to
    /// the right of the cursor after the move.
    pub fn move_right(&mut self, row_len: usize) -> (more: bool)
        ensures
            *final(self) == old(self).moved_right(row_len),
            more == (final(self).col + 1 < row_len),
    {
        if self.col < row_len && self.col + 1 < row_len {
            self.col = self.col + 1;
            self.wanted_col = self.col;
        }
        self.col < row_len && self.col + 1 < row_len
    }

    /// Moves one row down, if the text of `num_rows` rows has one, onto a
    /// row of `row_len` characters. The wanted column stays. Returns
    /// whether a row is left below the cursor after the move.
    pub fn move_down(&mut self, row_len: usize, num_rows: usize) -> (more: bool)
        ensures
            *final(self) == old(self).moved_down(row_len, num_rows),
            final(self).wanted_col == old(self).wanted_col,
            more == (final(self).row + 1 < num_rows),
    {
        if self.row < num_rows && self.row + 1 < num_rows {
            self.row = self.row + 1;
            self.col = land(self.wanted_col, row_len);
        }
        self.row < num_rows && self.row + 1 < num_rows
    }

    /// Moves one column left, if there is one, and makes that the wanted
    /// column. Returns whether a column is left before the cursor after the
    /// move.
    pub fn move_left(&mut self) -> (more: bool)
        ensures
            *final(self) == old(self).moved_left(),
            more == (final(self).col > 0),
    {
        if self.col > 0 {
            self.col = self.col - 1;
            self.wanted_col = self.col;
        }
        self.col > 0
    }

    /// The cursor's place relative to a window whose first cell is
    /// `(x, y)`; zero along an axis on which the cursor lies before the
    /// window.
    pub fn relative_to(&self, x: usize, y: usize) -> (at: (usize, usize))
        ensures
            at.0 == if self.col >= x { self.col - x } else { 0 },
            at.1 == if self.row >= y { self.row - y } else { 0 },
    {
        (
            if self.col >= x { self.col - x } else { 0 },
            if self.row >= y { self.row - y } else { 0 },
        )
    }
}

impl Default for Cursor {
    fn default() -> (cursor: Self)
        ensures
            cursor == (Cursor { col: 0, row: 0, wanted_col: 0 }),
    {
        Cursor { col: 0, row: 0, wanted_col: 0 }
    }
}

/// A vertical move onto a row that has a character in the wanted column
/// lands there, wherever earlier vertical moves over shorter rows had left
/// the cursor. In an empty row the cursor lands on column zero, so a wanted
/// column of zero is met in every row.
pub proof fn lemma_wanted_col_restored(cursor: Cursor, row_len: usize, num_rows: usize)
    requires
        cursor.wanted_col < row_len || cursor.wanted_col == 0,
    ensures
        cursor.row > 0 ==> cursor.moved_up(row_len).col == cursor.wanted_col,
        cursor.row + 1 < num_rows ==> cursor.moved_down(row_len, num_rows).col
            == cursor.wanted_col,
{
}

/// Moving down over a row of any length and back up onto a row that has a
/// character in the wanted column brings the cursor back to that column;
/// likewise up and back down.
pub proof fn lemma_there_and_back(
    cursor: Cursor,
    between_len: usize,
    back_len: usize,
    num_rows: usize,
)
    requires
        cursor.wanted_col < back_len || cursor.wanted_col == 0,
    ensures
        cursor.row + 1 < num_rows ==> cursor.moved_down(between_len, num_rows).moved_up(back_len)
            == (Cursor { col: cursor.wanted_col, ..cursor }),
        0 < cursor.row < num_rows ==> cursor.moved_up(between_len).moved_down(back_len, num_rows)
            == (Cursor { col: cursor.wanted_col, ..cursor }),
{
}

} // verus!

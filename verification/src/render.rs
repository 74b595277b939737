//! Frames: what the terminal is sent to show a state of the editor.
//!
//! A frame sets the cursor's shape for the mode, hides the cursor, goes to
//! the first cell, draws one row of cells for each row of the window, puts
//! the cursor in its place and shows it again. Every row of the window is
//! drawn in full: the part of the line that lies in the window, then blanks.

use vstd::prelude::*;
use vstd::std_specs::iter::IteratorSpec;
use vstd::utf8::encode_utf8;
use crate::buffer::Buffer;
use crate::editor::{Mode, RunningEditor};
use crate::encoding::{
    byte_offset, encoded, lemma_byte_offset_monotonic, lemma_byte_offset_step,
    lemma_char_bytes, lemma_encode_concat, lemma_encode_single, utf8_width,
};
use crate::text::{
    lemma_line_bounds, lemma_line_end_bounds, lemma_line_start_monotonic,
    lemma_nth_line_start_next, lemma_row_exists, line, line_count, line_end, line_len,
    line_start,
};

verus! {

/// What a frame is drawn from: a copy of the parts of the editor's state
/// that the screen shows.
#[derive(Debug)]
pub struct RenderInfo {
    pub window_size: (usize, usize),
    pub cursor: (usize, usize),
    pub scroll: (usize, usize),
    pub buf: Buffer,
    pub mode: Mode,
}

/// The escape character, which starts every control sequence.
pub const ESC: u8 = 0x1b;

/// The control sequence that gives the cursor the shape of the mode: a
/// block in normal mode, a bar in insert mode.
pub open spec fn cursor_shape(mode: Mode) -> Seq<u8> {
    match mode {
        Mode::Normal => seq![ESC, 0x5b, 0x32, 0x20, 0x71],
        Mode::Insert => seq![ESC, 0x5b, 0x35, 0x20, 0x71],
    }
}

/// The control sequence that hides the cursor.
pub open spec fn cursor_hide() -> Seq<u8> {
    seq![ESC, 0x5b, 0x3f, 0x32, 0x35, 0x6c]
}

/// The control sequence that shows the cursor.
pub open spec fn cursor_show() -> Seq<u8> {
    seq![ESC, 0x5b, 0x3f, 0x32, 0x35, 0x68]
}

/// The control sequence that puts the cursor on the first cell.
pub open spec fn cursor_home() -> Seq<u8> {
    seq![ESC, 0x5b, 0x30, 0x3b, 0x30, 0x48]
}

/// The digits of `n` in base ten, as characters.
pub open spec fn decimal(n: nat) -> Seq<u8>
    decreases n,
{
    if n < 10 {
        seq![(0x30 + n) as u8]
    } else {
        decimal(n / 10).push((0x30 + n % 10) as u8)
    }
}

/// The control sequence that puts the cursor on the cell in column `x` and
/// row `y` of the window, both counted from zero; the terminal counts from
/// one and takes the row first.
pub open spec fn cursor_to(x: nat, y: nat) -> Seq<u8> {
    seq![ESC, 0x5b] + decimal(y + 1) + seq![0x3bu8] + decimal(x + 1) + seq![0x48u8]
}

/// `n` blanks.
pub open spec fn blanks(n: int) -> Seq<u8> {
    Seq::new(
        if n > 0 {
            n as nat
        } else {
            0
        },
        |i: int| 0x20u8,
    )
}

/// The characters of line `row` that a window of `width` columns shows
/// when its first column is column `scroll_x` of the text.
pub open spec fn visible_cells(text: Seq<char>, row: int, scroll_x: int, width: int) -> Seq<
    char,
> {
    let len = line_len(text, row);
    let from = if scroll_x < len {
        scroll_x
    } else {
        len
    };
    let to = if scroll_x + width < len {
        scroll_x + width
    } else {
        len
    };
    line(text, row).subrange(from, to)
}

/// One row of the window: the visible characters of line `row`, encoded,
/// and blanks up to the width. A row past the end of the text is all
/// blank.
pub open spec fn row_bytes(text: Seq<char>, row: int, scroll_x: int, width: int) -> Seq<u8> {
    if 0 <= row < line_count(text) {
        let cells = visible_cells(text, row, scroll_x, width);
        encode_utf8(cells) + blanks(width - cells.len())
    } else {
        blanks(width)
    }
}

/// The first `n` rows of the window, each followed by a carriage return
/// and a line feed.
pub open spec fn rows_bytes(text: Seq<char>, scroll: (int, int), width: int, n: int) -> Seq<u8>
    decreases n,
{
    if n <= 0 {
        Seq::empty()
    } else {
        rows_bytes(text, scroll, width, n - 1) + row_bytes(
            text,
            scroll.1 + n - 1,
            scroll.0,
            width,
        ) + seq![0x0du8, 0x0au8]
    }
}

/// All rows of the window. The line feed after the last row is left out, so
/// that the terminal does not scroll.
pub open spec fn grid_bytes(text: Seq<char>, scroll: (int, int), window: (int, int)) -> Seq<u8> {
    if window.1 <= 0 {
        Seq::empty()
    } else {
        rows_bytes(text, scroll, window.0, window.1).drop_last()
    }
}

/// Distance from `scroll` to `at`, zero when `at` lies before `scroll`.
pub open spec fn offset_in_window(at: int, scroll: int) -> nat {
    if at >= scroll {
        (at - scroll) as nat
    } else {
        0
    }
}

impl RenderInfo {
    /// The frame that shows this state.
    pub open spec fn frame(&self) -> Seq<u8> {
        cursor_shape(self.mode) + cursor_hide() + cursor_home() + grid_bytes(
            self.buf@,
            (self.scroll.0 as int, self.scroll.1 as int),
            (self.window_size.0 as int, self.window_size.1 as int),
        ) + cursor_to(
            offset_in_window(self.cursor.0 as int, self.scroll.0 as int),
            offset_in_window(self.cursor.1 as int, self.scroll.1 as int),
        ) + cursor_show()
    }

    /// This is a copy of what the screen shows of `editor`.
    pub open spec fn shows(&self, editor: &RunningEditor) -> bool {
        &&& self.window_size == editor.window_size
        &&& self.cursor == editor.cursor
        &&& self.scroll == editor.scroll
        &&& self.buf@ == editor@.text
        &&& self.mode == editor.mode
    }

    /// Copies from the editor what the screen shows of it.
    pub fn from(value: &RunningEditor) -> (info: RenderInfo)
        requires
            value.cur_buf < value.buffers.len(),
        ensures
            info.shows(value),
    {
        RenderInfo {
            window_size: value.window_size,
            cursor: value.cursor,
            scroll: value.scroll,
            buf: value.buffers[value.cur_buf].clone(),
            mode: value.mode,
        }
    }
}

/// Appends the digits of `n` in base ten.
pub fn push_decimal(out: &mut Vec<u8>, n: u128)
    ensures
        final(out)@ == old(out)@ + decimal(n as nat),
    decreases n,
{
    if n >= 10 {
        push_decimal(out, n / 10);
    }
    let digit: u8 = (n % 10) as u8;
    out.push(0x30 + digit);
}

/// Appends `n` blanks.
pub fn push_blanks(out: &mut Vec<u8>, n: usize)
    ensures
        final(out)@ == old(out)@ + blanks(n as int),
{
    let mut k: usize = 0;
    while k < n
        invariant
            k <= n,
            out@ == old(out)@ + blanks(k as int),
        decreases n - k,
    {
        out.push(0x20);
        k = k + 1;
    }
}

/// Appends the bytes of `bytes` from index `from` up to `from + n`.
pub fn push_bytes(out: &mut Vec<u8>, bytes: &[u8], from: usize, n: usize)
    requires
        from + n <= bytes@.len(),
    ensures
        final(out)@ == old(out)@ + bytes@.subrange(from as int, from + n),
{
    proof {
        assert(bytes@.len() == vstd::slice::spec_slice_len(bytes));
    }
    let mut j: usize = 0;
    while j < n
        invariant
            j <= n,
            from + n <= bytes@.len() <= usize::MAX,
            out@ == old(out)@ + bytes@.subrange(from as int, from + j),
        decreases n - j,
    {
        out.push(bytes[from + j]);
        j = j + 1;
    }
}

/// The visible characters of line `row` that lie in its first `col`
/// columns.
pub open spec fn cells_before(
    text: Seq<char>,
    row: int,
    scroll_x: int,
    width: int,
    col: int,
) -> Seq<char> {
    let len = line_len(text, row);
    let upto = if col < len {
        col
    } else {
        len
    };
    let from = if scroll_x < upto {
        scroll_x
    } else {
        upto
    };
    let to = if scroll_x + width < upto {
        scroll_x + width
    } else {
        upto
    };
    text.subrange(line_start(text, row) + from, line_start(text, row) + to)
}

/// No cell of a line lies before its first column.
proof fn lemma_no_cells_before_start(text: Seq<char>, row: int, scroll_x: int, width: int)
    requires
        0 <= row,
        0 <= scroll_x,
        0 <= width,
        line_start(text, row) <= text.len(),
    ensures
        cells_before(text, row, scroll_x, width, 0) == Seq::<char>::empty(),
        encode_utf8(cells_before(text, row, scroll_x, width, 0)) == Seq::<u8>::empty(),
{
    lemma_line_start_monotonic(text, 0, row);
    lemma_line_end_bounds(text, line_start(text, row));
}

/// Ends a row of the window of which `cells` cells are drawn: blanks up to
/// the width, a carriage return and a line feed.
fn end_row(out: &mut Vec<u8>, width: usize, cells: usize)
    requires
        cells <= width,
    ensures
        final(out)@ == old(out)@ + blanks(width - cells) + seq![0x0du8, 0x0au8],
{
    push_blanks(out, width - cells);
    out.push(0x0d);
    out.push(0x0a);
}

/// Appends the first `height` rows of a window of `width` columns whose
/// first cell shows column `scroll.0` of row `scroll.1` of the text.
pub fn push_rows(
    out: &mut Vec<u8>,
    text: &str,
    scroll: (usize, usize),
    width: usize,
    height: usize,
)
    ensures
        final(out)@ == old(out)@ + rows_bytes(
            text@,
            (scroll.0 as int, scroll.1 as int),
            width as int,
            height as int,
        ),
{
    let ghost s = text@;
    let ghost base = out@;
    let ghost sc = (scroll.0 as int, scroll.1 as int);
    let bytes = encoded(text);
    let mut it = text.chars();
    let mut cur = it.next();
    let ghost mut i: int = 0;
    let ghost mut start: int = 0;
    let mut b: usize = 0;
    let mut row: usize = 0;
    let mut col: usize = 0;
    let mut done: usize = 0;
    let mut cells: usize = 0;
    let ghost mut shown: Seq<char> = Seq::empty();
    proof {
        lemma_no_cells_before_start(s, 0, sc.0, width as int);
    }
    while done < height && cur.is_some()
        invariant
            s == text@,
            sc == (scroll.0 as int, scroll.1 as int),
            bytes@ == encode_utf8(s),
            bytes@.len() <= usize::MAX,
            s.len() <= usize::MAX,
            0 <= start <= i <= s.len(),
            cur == (if i < s.len() {
                Some(s[i])
            } else {
                None
            }),
            i < s.len() ==> it.remaining() == s.skip(i + 1),
            it.obeys_prophetic_iter_laws(),
            b == byte_offset(s, i),
            row <= i,
            line_start(s, row as int) == start,
            line_end(s, start) == line_end(s, i),
            col == i - start,
            done <= height,
            done == height ==> col == 0,
            row >= scroll.1 ==> done == row - scroll.1,
            row < scroll.1 ==> done == 0,
            shown == (if row >= scroll.1 {
                cells_before(s, row as int, sc.0, width as int, col as int)
            } else {
                Seq::empty()
            }),
            cells == shown.len(),
            cells <= width,
            out@ == base + rows_bytes(s, sc, width as int, done as int) + encode_utf8(shown),
        decreases s.len() - i,
    {
        let ch = cur.unwrap();
        let next = it.next();
        let in_window = row >= scroll.1;
        proof {
            lemma_row_exists(s, row as int);
            lemma_line_end_bounds(s, i + 1);
            lemma_byte_offset_step(s, i);
            lemma_char_bytes(s, i);
        }
        let char_len = utf8_width(ch);
        if ch == '\n' {
            if in_window {
                end_row(out, width, cells);
                proof {
                    assert(shown =~= visible_cells(s, row as int, sc.0, width as int));
                }
                done = done + 1;
                cells = 0;
            }
            proof {
                lemma_nth_line_start_next(s, 0, row as int);
                start = i + 1;
                shown = Seq::empty();
                assert(out@ =~= base + rows_bytes(s, sc, width as int, done as int) + encode_utf8(
                    shown,
                ));
            }
            row = row + 1;
            col = 0;
        } else {
            // A carriage return directly before the line feed belongs to
            // the line ending and takes no cell.
            let ends_line = ch == '\r' && match next {
                Some(after) => after == '\n',
                None => false,
            };
            if !ends_line && in_window && col >= scroll.0 && cells < width {
                push_bytes(out, bytes, b, char_len);
                proof {
                    let longer = shown.push(ch);
                    assert(longer =~= shown + seq![ch]);
                    lemma_encode_concat(shown, seq![ch]);
                    lemma_encode_single(ch);
                    shown = longer;
                    assert(out@ =~= base + rows_bytes(s, sc, width as int, done as int)
                        + encode_utf8(shown));
                }
                cells = cells + 1;
            } else {
                proof {
                    if in_window {
                        assert(shown =~= cells_before(
                            s,
                            row as int,
                            sc.0,
                            width as int,
                            col + 1,
                        ));
                    }
                }
            }
            col = col + 1;
        }
        b = b + char_len;
        cur = next;
        proof {
            i = i + 1;
        }
    }
    if done < height {
        // The text has ended: a last line without a line feed is still to
        // be ended, and the rows that are left lie past the text.
        proof {
            lemma_row_exists(s, row as int);
            lemma_row_exists(s, row + 1);
            lemma_nth_line_start_next(s, 0, row as int);
        }
        if col > 0 && row >= scroll.1 {
            end_row(out, width, cells);
            proof {
                assert(shown =~= visible_cells(s, row as int, sc.0, width as int));
            }
            done = done + 1;
        }
        while done < height
            invariant
                done <= height,
                sc == (scroll.0 as int, scroll.1 as int),
                sc.1 + done >= line_count(s),
                out@ == base + rows_bytes(s, sc, width as int, done as int),
            decreases height - done,
        {
            end_row(out, width, 0);
            done = done + 1;
        }
    } else {
        proof {
            lemma_no_cells_before_start(s, row as int, sc.0, width as int);
        }
    }
}

/// Appends the control sequence that gives the cursor the shape of the
/// mode.
fn push_cursor_shape(out: &mut Vec<u8>, mode: Mode)
    ensures
        final(out)@ == old(out)@ + cursor_shape(mode),
{
    out.push(ESC);
    out.push(0x5b);
    match mode {
        Mode::Normal => out.push(0x32),
        Mode::Insert => out.push(0x35),
    }
    out.push(0x20);
    out.push(0x71);
}

/// Appends the control sequence that hides the cursor, or the one that
/// shows it.
fn push_cursor_shown(out: &mut Vec<u8>, shown: bool)
    ensures
        final(out)@ == old(out)@ + if shown {
            cursor_show()
        } else {
            cursor_hide()
        },
{
    out.push(ESC);
    out.push(0x5b);
    out.push(0x3f);
    out.push(0x32);
    out.push(0x35);
    if shown {
        out.push(0x68);
    } else {
        out.push(0x6c);
    }
}

/// Appends the control sequence that puts the cursor on the first cell.
fn push_cursor_home(out: &mut Vec<u8>)
    ensures
        final(out)@ == old(out)@ + cursor_home(),
{
    out.push(ESC);
    out.push(0x5b);
    out.push(0x30);
    out.push(0x3b);
    out.push(0x30);
    out.push(0x48);
}

/// Appends the control sequence that puts the cursor on the cell in column
/// `x` and row `y` of the window.
fn push_cursor_to(out: &mut Vec<u8>, x: usize, y: usize)
    ensures
        final(out)@ == old(out)@ + cursor_to(x as nat, y as nat),
{
    out.push(ESC);
    out.push(0x5b);
    push_decimal(out, y as u128 + 1);
    out.push(0x3b);
    push_decimal(out, x as u128 + 1);
    out.push(0x48);
}

/// Draws the frame that shows `info`.
pub fn render_frame(info: &RenderInfo) -> (frame: Vec<u8>)
    ensures
        frame@ == info.frame(),
{
    let (width, height) = info.window_size;
    let (scroll_x, scroll_y) = info.scroll;
    let mut out: Vec<u8> = Vec::new();
    push_cursor_shape(&mut out, info.mode);
    push_cursor_shown(&mut out, false);
    push_cursor_home(&mut out);
    push_rows(&mut out, info.buf.content.as_str(), info.scroll, width, height);
    if height > 0 {
        out.pop();
    }
    let x = if info.cursor.0 >= scroll_x {
        info.cursor.0 - scroll_x
    } else {
        0
    };
    let y = if info.cursor.1 >= scroll_y {
        info.cursor.1 - scroll_y
    } else {
        0
    };
    push_cursor_to(&mut out, x, y);
    push_cursor_shown(&mut out, true);
    out
}

} // verus!

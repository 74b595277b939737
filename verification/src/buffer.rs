//! The text buffer: content addressed by column and row.

use vstd::prelude::*;
use vstd::std_specs::iter::IteratorSpec;
use vstd::utf8::{encode_utf8, is_char_boundary};
use crate::encoding::{
    byte_offset, encoded, lemma_byte_offset_ends, lemma_byte_offset_is_boundary,
    lemma_byte_offset_monotonic, lemma_byte_offset_step, utf8_width,
};
use crate::text::{
    lemma_insert_in_line, lemma_insert_line_feed, lemma_line_count, lemma_line_end_bounds,
    lemma_line_start_follows_line_feed, lemma_line_start_monotonic, lemma_nth_line_start_next,
    lemma_position_in_text, lemma_row_exists, line_count, line_end, line_len, line_start,
    lines_from, offset_of, valid_position,
};

verus! {

/// Text held as one string; lines are told apart by line feeds.
#[derive(Debug)]
pub struct Buffer {
    pub content: String,
}

impl View for Buffer {
    type V = Seq<char>;

    open spec fn view(&self) -> Seq<char> {
        self.content@
    }
}

impl Default for Buffer {
    /// The empty buffer.
    fn default() -> (buffer: Self)
        ensures
            buffer@ == Seq::<char>::empty(),
    {
        Buffer { content: String::new() }
    }
}

impl Clone for Buffer {
    fn clone(&self) -> (buffer: Self)
        ensures
            buffer@ == self@,
    {
        Buffer { content: self.content.clone() }
    }
}

impl Buffer {
    /// Number of lines of the content.
    pub fn num_rows(&self) -> (n: usize)
        ensures
            n == line_count(self@),
    {
        let text = self.content.as_str();
        let ghost s = text@;
        let _ = encoded(text);
        proof {
            lemma_line_count(s);
        }
        let mut n: usize = 0;
        let mut fresh = true;
        let mut it = text.chars();
        let ghost mut i: int = 0;
        loop
            invariant
                s == self@,
                s.len() <= usize::MAX,
                0 <= i <= s.len(),
                it.remaining() == s.skip(i),
                it.obeys_prophetic_iter_laws(),
                n <= i,
                line_count(s) == n + if fresh {
                    lines_from(s, i)
                } else {
                    lines_from(s, line_end(s, i) + 1)
                },
            decreases s.len() - i,
        {
            match it.next() {
                None => {
                    return n;
                },
                Some(ch) => {
                    if fresh {
                        n = n + 1;
                    }
                    fresh = ch == '\n';
                    proof {
                        i = i + 1;
                    }
                },
            }
        }
    }

    /// Number of characters of line `row`, its line ending not counted.
    pub fn row_len(&self, row: usize) -> (n: usize)
        requires
            row < line_count(self@),
        ensures
            n == line_len(self@, row as int),
    {
        let text = self.content.as_str();
        let ghost s = text@;
        let _ = encoded(text);
        proof {
            lemma_row_exists(s, row as int);
        }
        let mut r: usize = 0;
        let mut n: usize = 0;
        let mut after_cr = false;
        let mut it = text.chars();
        let ghost mut i: int = 0;
        let ghost mut start: int = 0;
        loop
            invariant
                s == self@,
                s.len() <= usize::MAX,
                0 <= start <= i <= s.len(),
                it.remaining() == s.skip(i),
                it.obeys_prophetic_iter_laws(),
                r <= row,
                line_start(s, row as int) < s.len(),
                line_start(s, r as int) == start,
                line_end(s, start) == line_end(s, i),
                r < row ==> n == 0 && !after_cr,
                r == row ==> n == i - start,
                r == row ==> after_cr == (start < i && s[i - 1] == '\r'),
            decreases s.len() - i,
        {
            match it.next() {
                None => {
                    proof {
                        if r < row {
                            lemma_nth_line_start_next(s, 0, r as int);
                            lemma_line_start_monotonic(s, r + 1, row as int);
                        }
                    }
                    return n;
                },
                Some(ch) => {
                    if ch == '\n' {
                        if r == row {
                            return if after_cr {
                                n - 1
                            } else {
                                n
                            };
                        }
                        proof {
                            lemma_nth_line_start_next(s, 0, r as int);
                            start = i + 1;
                        }
                        r = r + 1;
                    } else if r == row {
                        n = n + 1;
                        after_cr = ch == '\r';
                    }
                    proof {
                        i = i + 1;
                    }
                },
            }
        }
    }

    /// Byte index into the content of the position `(col, row)`, counted in
    /// characters; `None` when the position is not in the text. The index
    /// lies on a character boundary.
    pub fn col_row_index(&self, col: usize, row: usize) -> (res: Option<usize>)
        ensures
            match res {
                Some(idx) => {
                    &&& valid_position(self@, col as int, row as int)
                    &&& idx == byte_offset(self@, offset_of(self@, col as int, row as int))
                    &&& is_char_boundary(encode_utf8(self@), idx as int)
                },
                None => !valid_position(self@, col as int, row as int),
            },
    {
        let text = self.content.as_str();
        let ghost s = text@;
        let _ = encoded(text);
        let mut r: usize = 0;
        let mut c: usize = 0;
        let mut b: usize = 0;
        let mut after_cr = false;
        let mut it = text.chars();
        let ghost mut i: int = 0;
        let ghost mut start: int = 0;
        loop
            invariant
                s == self@,
                encode_utf8(s).len() <= usize::MAX,
                0 <= start <= i <= s.len(),
                it.remaining() == s.skip(i),
                it.obeys_prophetic_iter_laws(),
                r <= row,
                c <= col,
                b == byte_offset(s, i),
                line_start(s, r as int) == start,
                line_end(s, start) == line_end(s, i),
                r < row ==> c == 0 && !after_cr,
                r == row ==> c == i - start,
                r == row ==> after_cr == (start < i && s[i - 1] == '\r'),
            decreases s.len() - i,
        {
            match it.next() {
                None => {
                    proof {
                        lemma_row_exists(s, row as int);
                        lemma_byte_offset_is_boundary(s, i);
                        if r < row {
                            lemma_nth_line_start_next(s, 0, r as int);
                            lemma_line_start_monotonic(s, r + 1, row as int);
                        }
                    }
                    return if r == row && c == col && c > 0 {
                        Some(b)
                    } else {
                        None
                    };
                },
                Some(ch) => {
                    if r == row {
                        proof {
                            lemma_row_exists(s, row as int);
                            lemma_line_end_bounds(s, i + 1);
                        }
                        if c == col {
                            proof {
                                lemma_byte_offset_is_boundary(s, i);
                            }
                            return if ch == '\n' && after_cr {
                                None
                            } else {
                                Some(b)
                            };
                        }
                        if ch == '\n' {
                            return None;
                        }
                        c = c + 1;
                        after_cr = ch == '\r';
                    } else if ch == '\n' {
                        proof {
                            lemma_nth_line_start_next(s, 0, r as int);
                            start = i + 1;
                        }
                        r = r + 1;
                    }
                    proof {
                        lemma_byte_offset_step(s, i);
                        lemma_byte_offset_monotonic(s, i + 1, s.len() as int);
                        lemma_byte_offset_ends(s);
                    }
                    b = b + utf8_width(ch);
                    proof {
                        i = i + 1;
                    }
                },
            }
        }
    }

    /// Inserts `ch` at the position `(col, row)`: the character that stood
    /// there, and all that follow it, move one place on.
    pub fn insert(&mut self, col: usize, row: usize, ch: char)
        requires
            valid_position(old(self)@, col as int, row as int),
        ensures
            final(self)@ == old(self)@.insert(offset_of(old(self)@, col as int, row as int), ch),
    {
        let found = self.col_row_index(col, row);
        proof {
            lemma_position_in_text(self@, col as int, row as int);
        }
        string_insert(&mut self.content, found.unwrap(), ch);
    }

    /// Removes the character just before the position `(col, row)`. At
    /// column zero this is the line feed that ends the row above.
    pub fn remove(&mut self, col: usize, row: usize)
        requires
            valid_position(old(self)@, col as int, row as int),
            offset_of(old(self)@, col as int, row as int) > 0,
        ensures
            final(self)@ == old(self)@.remove(offset_of(old(self)@, col as int, row as int) - 1),
    {
        proof {
            lemma_position_in_text(self@, col as int, row as int);
        }
        let ghost s = self@;
        let ghost p = offset_of(s, col as int, row as int);
        let idx = if col > 0 {
            let found = self.col_row_index(col - 1, row);
            found.unwrap()
        } else {
            let found = self.col_row_index(0, row);
            proof {
                lemma_line_start_follows_line_feed(s, row as int);
                lemma_byte_offset_step(s, p - 1);
            }
            found.unwrap() - 1
        };
        proof {
            lemma_byte_offset_is_boundary(s, p - 1);
            lemma_byte_offset_monotonic(s, p - 1, s.len() as int);
            lemma_byte_offset_ends(s);
        }
        string_remove(&mut self.content, idx);
    }
}

/// The position at which the text goes on after `ch` was put in at
/// `(col, row)`: the start of the next row after a line feed, the next
/// column after any other character.
pub open spec fn position_after(ch: char, col: int, row: int) -> (int, int) {
    if ch == '\n' {
        (0, row + 1)
    } else {
        (col + 1, row)
    }
}

/// Inserting a character at a position of the text and then removing the
/// character before the position that follows gives the text back.
///
/// Two insertions leave no position to follow and are left out: a line
/// feed at the very end of the text, which starts no new row, and a
/// carriage return directly before a line feed, which becomes part of the
/// line ending.
pub proof fn lemma_insert_then_remove(s: Seq<char>, col: int, row: int, ch: char)
    requires
        valid_position(s, col, row),
        !(ch == '\n' && offset_of(s, col, row) == s.len()),
        !(ch == '\r' && offset_of(s, col, row) < s.len() && s[offset_of(s, col, row)] == '\n'),
    ensures
        ({
            let inserted = s.insert(offset_of(s, col, row), ch);
            let (next_col, next_row) = position_after(ch, col, row);
            &&& valid_position(inserted, next_col, next_row)
            &&& offset_of(inserted, next_col, next_row) == offset_of(s, col, row) + 1
            &&& inserted.remove(offset_of(inserted, next_col, next_row) - 1) == s
        }),
{
    let p = offset_of(s, col, row);
    let inserted = s.insert(p, ch);
    lemma_position_in_text(s, col, row);
    if ch == '\n' {
        lemma_insert_line_feed(s, col, row);
        lemma_line_end_bounds(inserted, p + 1);
    } else {
        lemma_insert_in_line(s, col, row, ch);
    }
}

/// `String::insert`, which puts `ch` into the string at byte index `idx`.
/// The index must lie on a character boundary of the string, its end
/// included. Where `idx` is the byte offset of the `k`-th character, `ch`
/// becomes the `k`-th character and the rest of the text keeps its order.
#[verifier::external_body]
fn string_insert(s: &mut String, idx: usize, ch: char)
    requires
        is_char_boundary(encode_utf8(old(s)@), idx as int),
    ensures
        forall|k: int|
            0 <= k <= old(s)@.len() && idx == #[trigger] byte_offset(old(s)@, k) ==> final(s)@
                == old(s)@.insert(k, ch),
{
    s.insert(idx, ch)
}

/// `String::remove`, which takes the character at byte index `idx` out of
/// the string and returns it. The index must lie on a character boundary
/// before the end of the string. Where it is the byte offset of the `k`-th
/// character, that character leaves and the rest of the text keeps its
/// order.
#[verifier::external_body]
fn string_remove(s: &mut String, idx: usize) -> (ch: char)
    requires
        idx < encode_utf8(old(s)@).len(),
        is_char_boundary(encode_utf8(old(s)@), idx as int),
    ensures
        forall|k: int|
            0 <= k < old(s)@.len() && idx == #[trigger] byte_offset(old(s)@, k) ==> final(s)@
                == old(s)@.remove(k) && ch == old(s)@[k],
{
    s.remove(idx)
}

} // verus!

//! Lines of a text.
//!
//! A text is a sequence of characters. A line feed ends a line; what
//! follows the last line feed is a line as well, unless nothing follows it.
//! A carriage return directly before the line feed that ends a line belongs
//! to the line ending and not to the line. Positions are pairs of a column
//! and a row, both counted in characters from zero.

use vstd::prelude::*;

verus! {

/// Number of line feeds at or after index `from`.
pub open spec fn line_feeds_from(s: Seq<char>, from: int) -> nat
    decreases s.len() - from,
{
    if from < 0 || from >= s.len() {
        0
    } else if s[from] == '\n' {
        1 + line_feeds_from(s, from + 1)
    } else {
        line_feeds_from(s, from + 1)
    }
}

/// Number of line feeds of the text.
pub open spec fn line_feeds(s: Seq<char>) -> nat {
    line_feeds_from(s, 0)
}

/// Number of lines of the text: one for each line feed, and one more if
/// characters follow the last line feed.
pub open spec fn line_count(s: Seq<char>) -> nat {
    line_feeds(s) + if s.len() > 0 && s.last() != '\n' {
        1nat
    } else {
        0nat
    }
}

/// Index of the first line feed at or after `from`, or the length of the
/// text if there is none. Past the text it is `from` itself.
pub open spec fn line_end(s: Seq<char>, from: int) -> int
    decreases s.len() - from,
{
    if from >= s.len() {
        from
    } else if s[from] == '\n' {
        from
    } else {
        line_end(s, from + 1)
    }
}

/// Index at which the line starts that lies `n` lines after the one
/// starting at `from`.
pub open spec fn nth_line_start(s: Seq<char>, from: int, n: int) -> int
    decreases n,
{
    if n <= 0 {
        from
    } else {
        nth_line_start(s, line_end(s, from) + 1, n - 1)
    }
}

/// Index of the first character of line `row`. The line exists when this
/// index is less than the length of the text.
pub open spec fn line_start(s: Seq<char>, row: int) -> int {
    nth_line_start(s, 0, row)
}

/// Number of lines that start at or after `from`, where `from` is the start
/// of a line: the lines met on the way through the text, line by line.
pub open spec fn lines_from(s: Seq<char>, from: int) -> nat
    decreases s.len() + 1 - from,
{
    if from < 0 || from >= s.len() {
        0
    } else {
        proof {
            lemma_line_end_bounds(s, from);
        }
        1 + lines_from(s, line_end(s, from) + 1)
    }
}

/// True when line `row` ends in a line feed preceded by a carriage return.
pub open spec fn ends_in_crlf(s: Seq<char>, row: int) -> bool {
    let start = line_start(s, row);
    let end = line_end(s, start);
    start < end < s.len() && s[end - 1] == '\r'
}

/// Number of characters of line `row`, its line ending not counted.
pub open spec fn line_len(s: Seq<char>, row: int) -> int {
    let start = line_start(s, row);
    let end = line_end(s, start);
    if ends_in_crlf(s, row) {
        end - start - 1
    } else {
        end - start
    }
}

/// The characters of line `row`, its line ending left out.
pub open spec fn line(s: Seq<char>, row: int) -> Seq<char> {
    s.subrange(line_start(s, row), line_start(s, row) + line_len(s, row))
}

/// True when `(col, row)` names a place in the text: a character of line
/// `row` or the place just after its last character.
pub open spec fn valid_position(s: Seq<char>, col: int, row: int) -> bool {
    0 <= row < line_count(s) && 0 <= col <= line_len(s, row)
}

/// Index into the text of the position `(col, row)`.
pub open spec fn offset_of(s: Seq<char>, col: int, row: int) -> int {
    line_start(s, row) + col
}

/// `line_end` stays within the text and stops at the first line feed.
pub proof fn lemma_line_end_bounds(s: Seq<char>, from: int)
    requires
        0 <= from,
    ensures
        from <= line_end(s, from),
        from <= s.len() ==> line_end(s, from) <= s.len(),
        line_end(s, from) < s.len() ==> s[line_end(s, from)] == '\n',
        forall|j: int| from <= j < line_end(s, from) ==> s[j] != '\n',
    decreases s.len() - from,
{
    if from < s.len() && s[from] != '\n' {
        lemma_line_end_bounds(s, from + 1);
    }
}

/// The end of a line is the index `e` that no line feed precedes since
/// `from` and that holds a line feed or ends the text.
pub proof fn lemma_line_end_is(s: Seq<char>, from: int, e: int)
    requires
        0 <= from <= e <= s.len(),
        forall|j: int| from <= j < e ==> s[j] != '\n',
        e < s.len() ==> s[e] == '\n',
    ensures
        line_end(s, from) == e,
    decreases e - from,
{
    if from < e {
        lemma_line_end_is(s, from + 1, e);
    }
}

/// Line starts move forward by at least one index per line.
pub proof fn lemma_nth_line_start_lower(s: Seq<char>, from: int, n: int)
    requires
        0 <= from,
        0 <= n,
    ensures
        from + n <= nth_line_start(s, from, n),
    decreases n,
{
    if n > 0 {
        lemma_line_end_bounds(s, from);
        lemma_nth_line_start_lower(s, line_end(s, from) + 1, n - 1);
    }
}

/// Stepping one line further from the `n`-th line start.
pub proof fn lemma_nth_line_start_next(s: Seq<char>, from: int, n: int)
    requires
        0 <= n,
    ensures
        nth_line_start(s, from, n + 1) == line_end(s, nth_line_start(s, from, n)) + 1,
    decreases n,
{
    if n > 0 {
        lemma_nth_line_start_next(s, line_end(s, from) + 1, n - 1);
    } else {
        assert(nth_line_start(s, from, 1) == nth_line_start(s, line_end(s, from) + 1, 0));
    }
}

/// Going `a` lines and then `b` lines further is going `a + b` lines.
pub proof fn lemma_nth_line_start_add(s: Seq<char>, from: int, a: int, b: int)
    requires
        0 <= a,
        0 <= b,
    ensures
        nth_line_start(s, from, a + b) == nth_line_start(s, nth_line_start(s, from, a), b),
    decreases a,
{
    if a > 0 {
        lemma_nth_line_start_add(s, line_end(s, from) + 1, a - 1, b);
    }
}

/// Later rows start further into the text.
pub proof fn lemma_line_start_monotonic(s: Seq<char>, r1: int, r2: int)
    requires
        0 <= r1 <= r2,
    ensures
        0 <= line_start(s, r1),
        line_start(s, r1) + (r2 - r1) <= line_start(s, r2),
{
    lemma_nth_line_start_lower(s, 0, r1);
    lemma_nth_line_start_add(s, 0, r1, r2 - r1);
    lemma_nth_line_start_lower(s, line_start(s, r1), r2 - r1);
}

/// A line exists exactly when it starts inside the text.
pub proof fn lemma_lines_from_exists(s: Seq<char>, from: int, n: int)
    requires
        0 <= from,
        0 <= n,
    ensures
        n < lines_from(s, from) <==> nth_line_start(s, from, n) < s.len(),
    decreases n,
{
    if n > 0 {
        lemma_line_end_bounds(s, from);
        lemma_lines_from_exists(s, line_end(s, from) + 1, n - 1);
    }
}

/// A row exists exactly when its first index lies inside the text.
pub proof fn lemma_row_exists(s: Seq<char>, row: int)
    requires
        0 <= row,
    ensures
        row < line_count(s) <==> line_start(s, row) < s.len(),
        0 <= line_start(s, row),
{
    lemma_line_count(s);
    lemma_lines_from_exists(s, 0, row);
    lemma_nth_line_start_lower(s, 0, row);
}

/// Where an existing line lies in the text.
pub proof fn lemma_line_bounds(s: Seq<char>, row: int)
    requires
        0 <= row < line_count(s),
    ensures
        0 <= line_start(s, row) < s.len(),
        0 <= line_len(s, row) <= line_end(s, line_start(s, row)) - line_start(s, row),
        line_start(s, row) + line_len(s, row) <= s.len(),
        line_start(s, row + 1) == line_end(s, line_start(s, row)) + 1,
{
    lemma_row_exists(s, row);
    lemma_line_end_bounds(s, line_start(s, row));
    lemma_nth_line_start_next(s, 0, row);
}

/// A stretch without line feeds adds nothing to their number.
proof fn lemma_line_feeds_skip(s: Seq<char>, from: int, to: int)
    requires
        0 <= from <= to <= s.len(),
        forall|j: int| from <= j < to ==> s[j] != '\n',
    ensures
        line_feeds_from(s, from) == line_feeds_from(s, to),
    decreases to - from,
{
    if from < to {
        lemma_line_feeds_skip(s, from + 1, to);
    }
}

/// From the start of a line on, there is a line for each line feed and one
/// more if characters follow the last line feed.
proof fn lemma_lines_from_line_feeds(s: Seq<char>, from: int)
    requires
        0 <= from <= s.len(),
    ensures
        lines_from(s, from) == line_feeds_from(s, from) + if from < s.len() && s.last() != '\n' {
            1nat
        } else {
            0nat
        },
    decreases s.len() - from,
{
    if from < s.len() {
        let end = line_end(s, from);
        lemma_line_end_bounds(s, from);
        lemma_line_feeds_skip(s, from, end);
        if end < s.len() {
            lemma_lines_from_line_feeds(s, end + 1);
        } else {
            assert(lines_from(s, end + 1) == 0);
        }
    }
}

/// The lines of a text are those met on the way through it, line by line.
pub proof fn lemma_line_count(s: Seq<char>)
    ensures
        line_count(s) == lines_from(s, 0),
{
    lemma_lines_from_line_feeds(s, 0);
}

/// A position of the text lies on its line, between the start of the line
/// and its line feed.
pub proof fn lemma_position_in_text(s: Seq<char>, col: int, row: int)
    requires
        valid_position(s, col, row),
    ensures
        0 <= line_start(s, row) <= offset_of(s, col, row) <= line_end(s, line_start(s, row)),
        line_end(s, line_start(s, row)) <= s.len(),
        line_start(s, row) < s.len(),
{
    lemma_line_bounds(s, row);
}

/// Every row but the first starts just after a line feed.
pub proof fn lemma_line_start_follows_line_feed(s: Seq<char>, row: int)
    requires
        0 < row < line_count(s),
    ensures
        0 < line_start(s, row) < s.len(),
        s[line_start(s, row) - 1] == '\n',
{
    lemma_row_exists(s, row);
    lemma_nth_line_start_next(s, 0, row - 1);
    lemma_line_start_monotonic(s, 0, row - 1);
    lemma_line_end_bounds(s, line_start(s, row - 1));
}

/// How an inserted character moves the end of a line that starts at or
/// before it.
pub proof fn lemma_line_end_insert(s: Seq<char>, p: int, ch: char, from: int)
    requires
        0 <= from <= p <= s.len(),
    ensures
        line_end(s, from) < p ==> line_end(s.insert(p, ch), from) == line_end(s, from),
        line_end(s, from) >= p && ch == '\n' ==> line_end(s.insert(p, ch), from) == p,
        line_end(s, from) >= p && ch != '\n' ==> line_end(s.insert(p, ch), from) == line_end(
            s,
            from,
        ) + 1,
{
    let t = s.insert(p, ch);
    let e = line_end(s, from);
    lemma_line_end_bounds(s, from);
    if e < p {
        lemma_line_end_is(t, from, e);
    } else if ch == '\n' {
        lemma_line_end_is(t, from, p);
    } else {
        assert forall|j: int| from <= j < e + 1 implies t[j] != '\n' by {}
        lemma_line_end_is(t, from, e + 1);
    }
}

/// Rows that start at or before an inserted character start where they did.
pub proof fn lemma_line_start_insert(s: Seq<char>, p: int, ch: char, row: int)
    requires
        0 <= row,
        0 <= line_start(s, row) <= p <= s.len(),
    ensures
        line_start(s.insert(p, ch), row) == line_start(s, row),
    decreases row,
{
    if row > 0 {
        let t = s.insert(p, ch);
        lemma_line_start_monotonic(s, row - 1, row);
        lemma_line_start_insert(s, p, ch, row - 1);
        lemma_nth_line_start_next(s, 0, row - 1);
        lemma_nth_line_start_next(t, 0, row - 1);
        lemma_line_end_insert(s, p, ch, line_start(s, row - 1));
    }
}

/// A character other than a line feed, inserted at a position of the
/// text, lengthens its row by one and leaves the row where it was. The one
/// exception is a carriage return put directly before the line feed of the
/// row: it joins the line ending, and the row keeps its length.
pub proof fn lemma_insert_in_line(s: Seq<char>, col: int, row: int, ch: char)
    requires
        valid_position(s, col, row),
        ch != '\n',
    ensures
        ({
            let p = offset_of(s, col, row);
            let t = s.insert(p, ch);
            &&& row < line_count(t)
            &&& line_start(t, row) == line_start(s, row)
            &&& line_len(t, row) == if ch == '\r' && p < s.len() && s[p] == '\n' {
                line_len(s, row)
            } else {
                line_len(s, row) + 1
            }
        }),
{
    let p = offset_of(s, col, row);
    let t = s.insert(p, ch);
    let start = line_start(s, row);
    lemma_position_in_text(s, col, row);
    lemma_line_end_bounds(s, start);
    lemma_line_start_insert(s, p, ch, row);
    lemma_line_end_insert(s, p, ch, start);
    lemma_row_exists(t, row);
}

/// A line feed inserted at a position of the text ends its row there. What
/// followed the position becomes the next row; when nothing followed, no
/// row is added.
pub proof fn lemma_insert_line_feed(s: Seq<char>, col: int, row: int)
    requires
        valid_position(s, col, row),
    ensures
        ({
            let p = offset_of(s, col, row);
            let t = s.insert(p, '\n');
            &&& row < line_count(t)
            &&& line_start(t, row) == line_start(s, row)
            &&& line_start(t, row + 1) == p + 1
            &&& row + 1 < line_count(t) <==> p < s.len()
        }),
{
    let p = offset_of(s, col, row);
    let t = s.insert(p, '\n');
    let start = line_start(s, row);
    lemma_position_in_text(s, col, row);
    lemma_line_start_insert(s, p, '\n', row);
    lemma_line_end_insert(s, p, '\n', start);
    lemma_nth_line_start_next(t, 0, row);
    lemma_row_exists(t, row);
    lemma_row_exists(t, row + 1);
}

} // verus!

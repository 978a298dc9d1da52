//! Lines and columns of offsets into a character sequence.

use vstd::prelude::*;

verus! {

/// The number of newlines among the first `offset` characters of `data`.
pub open spec fn newlines_before(data: Seq<char>, offset: int) -> nat
    decreases offset,
{
    if offset <= 0 || offset > data.len() {
        0
    } else if data[offset - 1] == '\n' {
        newlines_before(data, offset - 1) + 1
    } else {
        newlines_before(data, offset - 1)
    }
}

/// The offset at which the line that holds `offset` begins: just after the last newline
/// before `offset`, or 0 where there is none.
pub open spec fn line_start(data: Seq<char>, offset: int) -> int
    decreases offset,
{
    if offset <= 0 || offset > data.len() {
        0
    } else if data[offset - 1] == '\n' {
        offset
    } else {
        line_start(data, offset - 1)
    }
}

/// The 1-based line of the character at `offset`.
pub open spec fn line_of(data: Seq<char>, offset: int) -> nat {
    newlines_before(data, offset) + 1
}

/// The 1-based column of the character at `offset` within its line.
pub open spec fn column_of(data: Seq<char>, offset: int) -> nat {
    (offset - line_start(data, offset) + 1) as nat
}

/// A line begins at the start of the text and after each newline.
pub open spec fn begins_line(data: Seq<char>, offset: int) -> bool {
    offset == 0 || (0 < offset <= data.len() && data[offset - 1] == '\n')
}

/// The line that holds `offset` begins at or before it.
pub proof fn lemma_line_start_bounds(data: Seq<char>, offset: int)
    requires
        0 <= offset <= data.len(),
    ensures
        0 <= line_start(data, offset) <= offset,
        begins_line(data, line_start(data, offset)),
        newlines_before(data, offset) <= offset,
    decreases offset,
{
    if offset > 0 {
        lemma_line_start_bounds(data, offset - 1);
    }
}

/// How lines and columns move from one offset to the next: a newline starts a new line at
/// column 1, any other character moves one column to the right.
pub proof fn lemma_position_step(data: Seq<char>, offset: int)
    requires
        0 <= offset < data.len(),
    ensures
        data[offset] == '\n' ==> line_of(data, offset + 1) == line_of(data, offset) + 1
            && column_of(data, offset + 1) == 1,
        data[offset] != '\n' ==> line_of(data, offset + 1) == line_of(data, offset)
            && column_of(data, offset + 1) == column_of(data, offset) + 1,
{
    lemma_line_start_bounds(data, offset);
}

/// The character in column `m` of a line that begins at `start`, counting both from the
/// line's first character as 1, is found in that column, and on the same line as `start`.
pub proof fn lemma_column_within_line(data: Seq<char>, start: int, m: int)
    requires
        begins_line(data, start),
        1 <= m,
        start + m - 1 <= data.len(),
        forall|k: int| start <= k < start + m - 1 ==> data[k] != '\n',
    ensures
        column_of(data, start + m - 1) == m,
        line_of(data, start + m - 1) == line_of(data, start),
    decreases m,
{
    if m > 1 {
        lemma_column_within_line(data, start, m - 1);
        lemma_position_step(data, start + m - 2);
    }
}

/// Each newline starts a new line: the character right after the `n`-th newline of the
/// text, counting from 1, is the first of line `n + 1`.
pub proof fn lemma_line_after_newline(data: Seq<char>, offset: int)
    requires
        0 <= offset < data.len(),
        data[offset] == '\n',
    ensures
        line_of(data, offset + 1) == newlines_before(data, offset) + 2,
        column_of(data, offset + 1) == 1,
{
}

} // verus!

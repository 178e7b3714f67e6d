//! Editor positions, and the codec that resolves an editor column to a character
//! offset within a line.

use crate::encoding::{
    encoded_len, lemma_prefix_len_monotonic, PositionEncodingKind,
};
use crate::rope::{
    slice_char_to_byte, slice_char_to_utf16_cu, slice_chars, slice_len_chars,
    slice_try_byte_to_char, slice_try_utf16_cu_to_char,
};
use ropey::RopeSlice;
use vstd::prelude::*;

verus! {

/// A position as an editor reports it: a line, and a column in the units of the
/// session's encoding.
#[derive(Clone, Copy, Debug, PartialEq, Eq, Structural)]
pub struct Position {
    pub line: u32,
    pub character: u32,
}

/// A range of a document, from `start` up to `end`.
#[derive(Clone, Copy, Debug, PartialEq, Eq, Structural)]
pub struct Range {
    pub start: Position,
    pub end: Position,
}

impl Position {
    /// A position from its line and column.
    pub fn new(line: u32, character: u32) -> (p: Position)
        ensures
            p.line == line,
            p.character == character,
    {
        Position { line, character }
    }

    /// Whether `self` comes at or before `other`, by line and then by column.
    pub open spec fn le(self, other: Position) -> bool {
        self.line < other.line || (self.line == other.line && self.character <= other.character)
    }

    /// Computes whether `self` comes at or before `other`.
    pub fn precedes_or_equals(&self, other: &Position) -> (b: bool)
        ensures
            b == self.le(*other),
    {
        self.line < other.line || (self.line == other.line && self.character <= other.character)
    }
}

impl Range {
    /// A range from its two ends.
    pub fn new(start: Position, end: Position) -> (r: Range)
        ensures
            r.start == start,
            r.end == end,
    {
        Range { start, end }
    }

    /// Whether the range is an insertion point: it starts where it ends.
    pub fn is_empty(&self) -> (b: bool)
        ensures
            b == (self.start == self.end),
    {
        self.start.line == self.end.line && self.start.character == self.end.character
    }
}

/// Whether column `column`, counted in the units of `encoding`, falls exactly
/// before character `i` of `line` (or at its end, for `i` the length).
pub open spec fn is_column_of(
    encoding: PositionEncodingKind,
    line: Seq<char>,
    column: int,
    i: int,
) -> bool {
    0 <= i <= line.len() && encoded_len(encoding, line.subrange(0, i)) == column
}

/// Whether `column` is a boundary between characters of `line` under `encoding`.
pub open spec fn is_valid_column(
    encoding: PositionEncodingKind,
    line: Seq<char>,
    column: int,
) -> bool {
    exists|i: int| is_column_of(encoding, line, column, i)
}

/// The character offset that `column` resolves to in `line`, where it is valid.
pub open spec fn column_to_char(
    encoding: PositionEncodingKind,
    line: Seq<char>,
    column: int,
) -> int {
    choose|i: int| is_column_of(encoding, line, column, i)
}

/// A column resolves to one character offset at most.
pub proof fn lemma_column_unique(
    encoding: PositionEncodingKind,
    line: Seq<char>,
    column: int,
    i: int,
    j: int,
)
    requires
        is_column_of(encoding, line, column, i),
        is_column_of(encoding, line, column, j),
    ensures
        i == j,
{
    if i < j {
        lemma_prefix_len_monotonic(line, i, j);
    } else if j < i {
        lemma_prefix_len_monotonic(line, j, i);
    }
}

/// No boundary lies strictly between the widths of two neighbouring prefixes.
proof fn lemma_no_column_inside(
    encoding: PositionEncodingKind,
    line: Seq<char>,
    column: int,
    i: int,
)
    requires
        0 <= i < line.len(),
        encoded_len(encoding, line.subrange(0, i)) < column,
        column < encoded_len(encoding, line.subrange(0, i + 1)),
    ensures
        !is_valid_column(encoding, line, column),
{
    assert forall|k: int| !is_column_of(encoding, line, column, k) by {
        if 0 <= k <= i {
            lemma_prefix_len_monotonic(line, k, i);
        } else if i + 1 <= k <= line.len() {
            lemma_prefix_len_monotonic(line, i + 1, k);
        }
    }
}

/// No boundary lies past the width of the whole line.
proof fn lemma_no_column_past(encoding: PositionEncodingKind, line: Seq<char>, column: int)
    requires
        encoded_len(encoding, line) < column,
    ensures
        !is_valid_column(encoding, line, column),
{
    assert forall|k: int| !is_column_of(encoding, line, column, k) by {
        if 0 <= k <= line.len() {
            lemma_prefix_len_monotonic(line, k, line.len() as int);
            assert(line.subrange(0, line.len() as int) =~= line);
        }
    }
}

/// Resolves an editor column to a character offset within one line.
///
/// The result is the offset whose prefix is exactly `column` units wide. There
/// is none where the column lies past the line, inside a multi-byte character
/// (byte columns) or between the two halves of a surrogate pair (UTF-16 columns).
pub fn resolve_column(encoding: PositionEncodingKind, column: u32, line: &RopeSlice) -> (res:
    Option<usize>)
    ensures
        res is Some <==> is_valid_column(encoding, slice_chars(*line), column as int),
        res matches Some(i) ==> is_column_of(encoding, slice_chars(*line), column as int, i as int),
{
    let ghost chars = slice_chars(*line);
    match encoding {
        PositionEncodingKind::UTF8 => {
            match slice_try_byte_to_char(line, column as usize) {
                Ok(i) => {
                    let at = slice_char_to_byte(line, i);
                    assert(chars.subrange(0, chars.len() as int) =~= chars);
                    if at == column as usize {
                        assert(is_column_of(encoding, chars, column as int, i as int));
                        Some(i)
                    } else {
                        proof {
                            lemma_no_column_inside(encoding, chars, column as int, i as int);
                        }
                        None
                    }
                },
                Err(_) => {
                    proof {
                        lemma_no_column_past(encoding, chars, column as int);
                    }
                    None
                },
            }
        },
        PositionEncodingKind::UTF16 => {
            match slice_try_utf16_cu_to_char(line, column as usize) {
                Ok(i) => {
                    let at = slice_char_to_utf16_cu(line, i);
                    assert(chars.subrange(0, chars.len() as int) =~= chars);
                    if at == column as usize {
                        assert(is_column_of(encoding, chars, column as int, i as int));
                        Some(i)
                    } else {
                        proof {
                            lemma_no_column_inside(encoding, chars, column as int, i as int);
                        }
                        None
                    }
                },
                Err(_) => {
                    proof {
                        lemma_no_column_past(encoding, chars, column as int);
                    }
                    None
                },
            }
        },
        PositionEncodingKind::UTF32 => {
            let n = slice_len_chars(line);
            if column as usize <= n {
                assert(chars.subrange(0, column as int).len() == column);
                assert(is_column_of(encoding, chars, column as int, column as int));
                Some(column as usize)
            } else {
                proof {
                    lemma_no_column_past(encoding, chars, column as int);
                }
                None
            }
        },
    }
}

/// The column, in the units of `encoding`, at which character offset `i` of a
/// line stands. An offset past the line has no column.
pub fn char_to_column(encoding: PositionEncodingKind, i: usize, line: &RopeSlice) -> (res: Option<
    usize,
>)
    ensures
        res is Some <==> i <= slice_chars(*line).len(),
        res matches Some(c) ==> is_column_of(encoding, slice_chars(*line), c as int, i as int),
{
    if i > slice_len_chars(line) {
        return None;
    }
    match encoding {
        PositionEncodingKind::UTF8 => Some(slice_char_to_byte(line, i)),
        PositionEncodingKind::UTF16 => Some(slice_char_to_utf16_cu(line, i)),
        PositionEncodingKind::UTF32 => {
            assert(slice_chars(*line).subrange(0, i as int).len() == i);
            Some(i)
        },
    }
}

/// The column of a character offset resolves back to that offset.
pub proof fn lemma_char_round_trip(encoding: PositionEncodingKind, line: Seq<char>, i: int)
    requires
        0 <= i <= line.len(),
    ensures
        is_valid_column(encoding, line, encoded_len(encoding, line.subrange(0, i)) as int),
        column_to_char(encoding, line, encoded_len(encoding, line.subrange(0, i)) as int) == i,
{
    let column = encoded_len(encoding, line.subrange(0, i)) as int;
    assert(is_column_of(encoding, line, column, i));
    lemma_column_unique(encoding, line, column, i, column_to_char(encoding, line, column));
}

/// A valid column resolves to a character offset, and that offset converts back
/// to the same column.
pub proof fn lemma_column_round_trip(
    encoding: PositionEncodingKind,
    line: Seq<char>,
    column: int,
)
    requires
        is_valid_column(encoding, line, column),
    ensures
        0 <= column_to_char(encoding, line, column) <= line.len(),
        encoded_len(encoding, line.subrange(0, column_to_char(encoding, line, column)))
            == column,
{
}

} // verus!

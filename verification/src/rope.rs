//! The rope that stores a document's text, and what is taken on trust about it.
//!
//! A rope is modelled by the sequence of its characters. Each function below makes
//! one call into `ropey` and states, over that model, what the call does.

use crate::encoding::{utf16_len, utf8_len, PositionEncodingKind};
use crate::lines::{breaks_before, line_count, line_starts_at, line_text};
use crate::position::{column_to_char, is_valid_column};
use ropey::{Rope, RopeSlice};
use vstd::prelude::*;

verus! {

#[verifier::external_type_specification]
#[verifier::external_body]
pub struct ExRope(Rope);

#[verifier::external_type_specification]
#[verifier::external_body]
pub struct ExRopeSlice<'a>(RopeSlice<'a>);

#[verifier::external_type_specification]
#[verifier::external_body]
pub struct ExRopeError(ropey::Error);

/// The characters that a rope holds, in order.
pub uninterp spec fn rope_chars(rope: Rope) -> Seq<char>;

/// The characters that a slice of a rope holds, in order.
pub uninterp spec fn slice_chars(slice: RopeSlice) -> Seq<char>;

/// `Rope::from_str`: the rope holds exactly the characters of `text`.
#[verifier::external_body]
pub(crate) fn rope_from_str(text: &str) -> (rope: Rope)
    ensures
        rope_chars(rope) == text@,
{
    Rope::from_str(text)
}

/// `Rope::len_chars`: the number of characters held.
#[verifier::external_body]
pub(crate) fn rope_len_chars(rope: &Rope) -> (n: usize)
    ensures
        n == rope_chars(*rope).len(),
{
    rope.len_chars()
}

/// `Rope::len_bytes`: the length of the text in UTF-8.
#[verifier::external_body]
pub(crate) fn rope_len_bytes(rope: &Rope) -> (n: usize)
    ensures
        n == utf8_len(rope_chars(*rope)),
{
    rope.len_bytes()
}

/// `Rope::len_lines`: one more than the number of line breaks.
#[verifier::external_body]
pub(crate) fn rope_len_lines(rope: &Rope) -> (n: usize)
    ensures
        n == line_count(rope_chars(*rope)),
{
    rope.len_lines()
}

/// `Rope::get_line`: the line with its break, for every line index below the
/// line count, and nothing from there on.
#[verifier::external_body]
pub(crate) fn rope_get_line<'a>(rope: &'a Rope, line: usize) -> (slice: Option<RopeSlice<'a>>)
    ensures
        slice is Some <==> line < line_count(rope_chars(*rope)),
        slice matches Some(s) ==> slice_chars(s) == line_text(rope_chars(*rope), line as int),
{
    rope.get_line(line)
}

/// `Rope::line_to_char`: the character index at which a line starts. The line
/// count itself is accepted and gives the length of the text; a larger index
/// makes `ropey` panic and is left out.
#[verifier::external_body]
pub(crate) fn rope_line_to_char(rope: &Rope, line: usize) -> (pos: usize)
    requires
        line <= line_count(rope_chars(*rope)),
    ensures
        line_starts_at(rope_chars(*rope), line as int, pos as int),
{
    rope.line_to_char(line)
}

/// `Rope::char_to_byte`: the UTF-8 length of the text before a character index.
/// An index past the length makes `ropey` panic and is left out.
#[verifier::external_body]
pub(crate) fn rope_char_to_byte(rope: &Rope, char_idx: usize) -> (byte_idx: usize)
    requires
        char_idx <= rope_chars(*rope).len(),
    ensures
        byte_idx == utf8_len(rope_chars(*rope).subrange(0, char_idx as int)),
{
    rope.char_to_byte(char_idx)
}

/// `Rope::char_to_line`: the number of line breaks that end before a character
/// index. An index past the length makes `ropey` panic and is left out.
#[verifier::external_body]
pub(crate) fn rope_char_to_line(rope: &Rope, char_idx: usize) -> (line: usize)
    requires
        char_idx <= rope_chars(*rope).len(),
    ensures
        line == breaks_before(rope_chars(*rope), char_idx as int),
{
    rope.char_to_line(char_idx)
}

/// `Rope::char`: the character at an index. An index at or past the length
/// makes `ropey` panic and is left out.
#[verifier::external_body]
pub(crate) fn rope_char(rope: &Rope, char_idx: usize) -> (c: char)
    requires
        char_idx < rope_chars(*rope).len(),
    ensures
        c == rope_chars(*rope)[char_idx as int],
{
    rope.char(char_idx)
}

/// `Rope::remove`: the characters of the range leave, the others stay in order.
/// A range that ends past the length, or before its start, makes `ropey` panic
/// and is left out.
#[verifier::external_body]
pub(crate) fn rope_remove(rope: &mut Rope, start: usize, end: usize)
    requires
        start <= end <= rope_chars(*old(rope)).len(),
    ensures
        rope_chars(*final(rope)) == rope_chars(*old(rope)).subrange(0, start as int)
            + rope_chars(*old(rope)).subrange(end as int, rope_chars(*old(rope)).len() as int),
{
    rope.remove(start..end)
}

/// `Rope::insert`: the characters of `text` enter at the index, the others stay
/// in order around them. An index past the length makes `ropey` panic and is
/// left out.
#[verifier::external_body]
pub(crate) fn rope_insert(rope: &mut Rope, char_idx: usize, text: &str)
    requires
        char_idx <= rope_chars(*old(rope)).len(),
    ensures
        rope_chars(*final(rope)) == rope_chars(*old(rope)).subrange(0, char_idx as int) + text@
            + rope_chars(*old(rope)).subrange(
            char_idx as int,
            rope_chars(*old(rope)).len() as int,
        ),
{
    rope.insert(char_idx, text)
}

/// `String::from` of a rope: the string holds the rope's characters.
#[verifier::external_body]
pub(crate) fn rope_to_string(rope: &Rope) -> (text: String)
    ensures
        text@ == rope_chars(*rope),
{
    String::from(rope)
}

/// `String::from` of a slice: the string holds the slice's characters.
#[verifier::external_body]
pub(crate) fn slice_to_string(slice: RopeSlice) -> (text: String)
    ensures
        text@ == slice_chars(slice),
{
    String::from(slice)
}

/// `RopeSlice::len_chars`: the number of characters of the slice.
#[verifier::external_body]
pub(crate) fn slice_len_chars(slice: &RopeSlice) -> (n: usize)
    ensures
        n == slice_chars(*slice).len(),
{
    slice.len_chars()
}

/// `RopeSlice::try_byte_to_char`: an error for a byte index past the slice's
/// length in UTF-8, else the index of the character that holds the byte, or the
/// number of characters for the index one past the last byte.
#[verifier::external_body]
pub(crate) fn slice_try_byte_to_char(slice: &RopeSlice, byte_idx: usize) -> (res: Result<
    usize,
    ropey::Error,
>)
    ensures
        res is Ok <==> byte_idx <= utf8_len(slice_chars(*slice)),
        res matches Ok(i) ==> {
            &&& i <= slice_chars(*slice).len()
            &&& utf8_len(slice_chars(*slice).subrange(0, i as int)) <= byte_idx
            &&& i < slice_chars(*slice).len() ==> byte_idx < utf8_len(
                slice_chars(*slice).subrange(0, i + 1),
            )
        },
{
    slice.try_byte_to_char(byte_idx)
}

/// `RopeSlice::try_utf16_cu_to_char`: an error for a code unit index past the
/// slice's length in UTF-16, else the index of the character that holds the code
/// unit, or the number of characters for the index one past the last unit.
#[verifier::external_body]
pub(crate) fn slice_try_utf16_cu_to_char(slice: &RopeSlice, cu_idx: usize) -> (res: Result<
    usize,
    ropey::Error,
>)
    ensures
        res is Ok <==> cu_idx <= utf16_len(slice_chars(*slice)),
        res matches Ok(i) ==> {
            &&& i <= slice_chars(*slice).len()
            &&& utf16_len(slice_chars(*slice).subrange(0, i as int)) <= cu_idx
            &&& i < slice_chars(*slice).len() ==> cu_idx < utf16_len(
                slice_chars(*slice).subrange(0, i + 1),
            )
        },
{
    slice.try_utf16_cu_to_char(cu_idx)
}

/// `RopeSlice::char_to_byte`: the UTF-8 length of the slice's text before a
/// character index. An index past the length makes `ropey` panic and is left out.
#[verifier::external_body]
pub(crate) fn slice_char_to_byte(slice: &RopeSlice, char_idx: usize) -> (byte_idx: usize)
    requires
        char_idx <= slice_chars(*slice).len(),
    ensures
        byte_idx == utf8_len(slice_chars(*slice).subrange(0, char_idx as int)),
{
    slice.char_to_byte(char_idx)
}

/// `RopeSlice::char_to_utf16_cu`: the UTF-16 length of the slice's text before a
/// character index. An index past the length makes `ropey` panic and is left out.
#[verifier::external_body]
pub(crate) fn slice_char_to_utf16_cu(slice: &RopeSlice, char_idx: usize) -> (cu_idx: usize)
    requires
        char_idx <= slice_chars(*slice).len(),
    ensures
        cu_idx == utf16_len(slice_chars(*slice).subrange(0, char_idx as int)),
{
    slice.char_to_utf16_cu(char_idx)
}

/// Whether byte `byte_idx` of the UTF-8 form of `s` belongs to character `i`, or
/// is the byte one past the end, for `i` the length.
pub open spec fn byte_in_char(s: Seq<char>, i: int, byte_idx: int) -> bool {
    &&& 0 <= i <= s.len()
    &&& utf8_len(s.subrange(0, i)) <= byte_idx
    &&& i < s.len() ==> byte_idx < utf8_len(s.subrange(0, i + 1))
}

/// `Rope::byte_to_line`: the number of line breaks that end before the
/// character to which a byte belongs. A byte index past the length in UTF-8
/// makes `ropey` panic and is left out.
#[verifier::external_body]
pub(crate) fn rope_byte_to_line(rope: &Rope, byte_idx: usize) -> (line: usize)
    requires
        byte_idx <= utf8_len(rope_chars(*rope)),
    ensures
        forall|i: int| #[trigger]
            byte_in_char(rope_chars(*rope), i, byte_idx as int) ==> line == breaks_before(
                rope_chars(*rope),
                i,
            ),
{
    rope.byte_to_line(byte_idx)
}

/// `Rope::get_byte_slice`: the text between two byte offsets, where the first is
/// not past the second and both fall between characters; nothing otherwise.
#[verifier::external_body]
pub(crate) fn rope_get_byte_slice<'a>(rope: &'a Rope, start: usize, end: usize) -> (slice: Option<RopeSlice<'a>>)
    ensures
        slice is Some <==> (start <= end && is_valid_column(
            PositionEncodingKind::UTF8,
            rope_chars(*rope),
            start as int,
        ) && is_valid_column(PositionEncodingKind::UTF8, rope_chars(*rope), end as int)),
        slice matches Some(s) ==> slice_chars(s) == rope_chars(*rope).subrange(
            column_to_char(PositionEncodingKind::UTF8, rope_chars(*rope), start as int),
            column_to_char(PositionEncodingKind::UTF8, rope_chars(*rope), end as int),
        ),
{
    rope.get_byte_slice(start..end)
}

} // verus!

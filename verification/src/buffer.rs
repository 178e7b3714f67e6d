//! The text buffer of a document: an editable sequence of characters with
//! conversions between lines, characters and bytes.

use crate::encoding::{
    lemma_prefix_len_monotonic, lemma_utf8_len_concat, lemma_utf8_len_split, utf8_len,
    PositionEncodingKind,
};
use crate::lines::{
    breaks_before, lemma_line_start_is, lemma_line_start_monotonic, lemma_line_text_len,
    lemma_row_bounds, line_count, line_feeds_before, line_start, line_text, row_start,
};
use crate::position::{
    column_to_char, is_valid_column, lemma_column_unique, resolve_column, Position,
};
use crate::syntax::{Point, TreeEdit};
use crate::rope::{
    byte_in_char, rope_byte_to_line, rope_char, rope_char_to_byte, rope_char_to_line, rope_chars,
    rope_from_str, rope_get_byte_slice, rope_get_line, rope_insert, rope_len_bytes,
    rope_len_chars, rope_len_lines, rope_line_to_char, rope_remove, rope_to_string,
    slice_to_string,
};
use ropey::Rope;
use vstd::prelude::*;

verus! {

/// Why a buffer operation was refused.
#[derive(Clone, Copy, Debug, PartialEq, Eq, Structural)]
pub enum BufferError {
    /// An index lies beyond the buffer.
    OutOfBounds,
}

/// An editable text, addressed by character index.
pub struct TextBuffer {
    rope: Rope,
}

/// The text `s` with the characters `[start, end)` replaced by `text`.
pub open spec fn splice(s: Seq<char>, start: int, end: int, text: Seq<char>) -> Seq<char> {
    s.subrange(0, start) + text + s.subrange(end, s.len() as int)
}

/// Whether `pos` names a place in `text`: an existing line, and a column that
/// falls between two characters of that line, or at its end.
pub open spec fn position_resolves(
    encoding: PositionEncodingKind,
    text: Seq<char>,
    pos: Position,
) -> bool {
    pos.line < line_count(text) && is_valid_column(
        encoding,
        line_text(text, pos.line as int),
        pos.character as int,
    )
}

/// The character index in `text` that `pos` names, where it resolves.
pub open spec fn position_to_char(
    encoding: PositionEncodingKind,
    text: Seq<char>,
    pos: Position,
) -> int {
    line_start(text, pos.line as int) + column_to_char(
        encoding,
        line_text(text, pos.line as int),
        pos.character as int,
    )
}

/// Where character index `i` of `text` stands for the parser: the number of
/// line feeds before it, and its distance in bytes from the start of its row.
/// The parser counts rows by line feeds alone, whatever else ends a line.
pub open spec fn point_at(text: Seq<char>, i: int) -> Point {
    Point {
        row: line_feeds_before(text, i) as usize,
        column: utf8_len(text.subrange(row_start(text, i), i)) as usize,
    }
}

/// What the tree is told when the characters `[start, end)` of `before` are
/// replaced by `inserted`: the three byte offsets, each with its point. The
/// first two are taken in `before`, the last in the text after the edit.
pub open spec fn tree_edit_for(before: Seq<char>, start: int, end: int, inserted: Seq<char>) -> TreeEdit {
    TreeEdit {
        start_byte: utf8_len(before.subrange(0, start)) as usize,
        old_end_byte: utf8_len(before.subrange(0, end)) as usize,
        new_end_byte: (utf8_len(before.subrange(0, start)) + utf8_len(inserted)) as usize,
        start_position: point_at(before, start),
        old_end_position: point_at(before, end),
        new_end_position: point_at(
            splice(before, start, end, inserted),
            start + inserted.len(),
        ),
    }
}

/// Of two positions that resolve, the one that comes first in the editor's
/// order is not behind the other in the text.
pub proof fn lemma_positions_ordered(
    encoding: PositionEncodingKind,
    text: Seq<char>,
    a: Position,
    b: Position,
)
    requires
        a.le(b),
        position_resolves(encoding, text, a),
        position_resolves(encoding, text, b),
    ensures
        0 <= position_to_char(encoding, text, a) <= position_to_char(encoding, text, b)
            <= text.len(),
{
    let la = line_text(text, a.line as int);
    let lb = line_text(text, b.line as int);
    let ca = column_to_char(encoding, la, a.character as int);
    let cb = column_to_char(encoding, lb, b.character as int);
    lemma_line_text_len(text, a.line as int);
    lemma_line_text_len(text, b.line as int);
    if a.line == b.line {
        if cb < ca {
            lemma_prefix_len_monotonic(la, cb, ca);
        }
    } else {
        lemma_line_start_monotonic(text, a.line + 1, b.line as int);
    }
}

/// What the tree is told of an edit agrees with the text after the edit: the
/// replaced range does not end before it starts, the replacement ends in the
/// new text at the byte offset told, and the text grows in bytes by what the
/// replacement is longer than the replaced range.
pub proof fn lemma_tree_edit_consistent(
    before: Seq<char>,
    start: int,
    end: int,
    inserted: Seq<char>,
)
    requires
        0 <= start <= end <= before.len(),
    ensures
        ({
            let after = splice(before, start, end, inserted);
            let replaced = utf8_len(before.subrange(0, end)) - utf8_len(before.subrange(0, start));
            &&& replaced >= 0
            &&& utf8_len(before.subrange(0, start)) + utf8_len(inserted) == utf8_len(
                after.subrange(0, start + inserted.len()),
            )
            &&& utf8_len(after) == utf8_len(before) - replaced + utf8_len(inserted)
            &&& after.len() == before.len() - (end - start) + inserted.len()
        }),
{
    let after = splice(before, start, end, inserted);
    let head = before.subrange(0, start);
    let tail = before.subrange(end, before.len() as int);
    lemma_prefix_len_monotonic(before, start, end);
    assert(after.subrange(0, start + inserted.len()) =~= head + inserted);
    lemma_utf8_len_concat(head, inserted);
    lemma_utf8_len_concat(head + inserted, tail);
    assert(before =~= before.subrange(0, end) + tail);
    lemma_utf8_len_concat(before.subrange(0, end), tail);
}

impl View for TextBuffer {
    type V = Seq<char>;

    closed spec fn view(&self) -> Seq<char> {
        rope_chars(self.rope)
    }
}

impl TextBuffer {
    /// A buffer that holds `text`.
    pub fn from_str(text: &str) -> (buffer: TextBuffer)
        ensures
            buffer@ == text@,
    {
        TextBuffer { rope: rope_from_str(text) }
    }

    /// Number of characters held.
    pub fn len_chars(&self) -> (n: usize)
        ensures
            n == self@.len(),
    {
        rope_len_chars(&self.rope)
    }

    /// Length of the text in UTF-8.
    pub fn len_bytes(&self) -> (n: usize)
        ensures
            n == utf8_len(self@),
    {
        rope_len_bytes(&self.rope)
    }

    /// Number of lines: one more than the number of line breaks.
    pub fn len_lines(&self) -> (n: usize)
        ensures
            n == line_count(self@),
    {
        rope_len_lines(&self.rope)
    }

    /// The whole text.
    pub fn text(&self) -> (text: String)
        ensures
            text@ == self@,
    {
        rope_to_string(&self.rope)
    }

    /// Replaces the characters `[char_start, char_end)`, which the buffer has,
    /// by `text`.
    fn splice_in(&mut self, char_start: usize, char_end: usize, text: &str)
        requires
            char_start <= char_end <= old(self)@.len(),
        ensures
            final(self)@ == splice(old(self)@, char_start as int, char_end as int, text@),
    {
        let ghost before = self@;
        rope_remove(&mut self.rope, char_start, char_end);
        rope_insert(&mut self.rope, char_start, text);
        proof {
            let removed = before.subrange(0, char_start as int) + before.subrange(
                char_end as int,
                before.len() as int,
            );
            assert(removed.subrange(0, char_start as int) =~= before.subrange(
                0,
                char_start as int,
            ));
            assert(removed.subrange(char_start as int, removed.len() as int) =~= before.subrange(
                char_end as int,
                before.len() as int,
            ));
        }
    }

    /// Replaces the characters `[char_start, char_end)` by `text`. A range that
    /// ends past the buffer, or before its start, is refused and changes nothing.
    pub fn replace(&mut self, char_start: usize, char_end: usize, text: &str) -> (res: Result<
        (),
        BufferError,
    >)
        ensures
            res is Ok <==> char_start <= char_end <= old(self)@.len(),
            res is Ok ==> final(self)@ == splice(
                old(self)@,
                char_start as int,
                char_end as int,
                text@,
            ),
            res is Err ==> final(self)@ == old(self)@,
    {
        if char_start > char_end || char_end > rope_len_chars(&self.rope) {
            return Err(BufferError::OutOfBounds);
        }
        self.splice_in(char_start, char_end, text);
        Ok(())
    }

    /// The character index at which `line` starts. The line one past the last is
    /// accepted and starts at the end of the text.
    pub fn line_to_char(&self, line: usize) -> (res: Result<usize, BufferError>)
        ensures
            res is Ok <==> line <= line_count(self@),
            res matches Ok(pos) ==> pos == line_start(self@, line as int),
    {
        if line > rope_len_lines(&self.rope) {
            return Err(BufferError::OutOfBounds);
        }
        let pos = rope_line_to_char(&self.rope, line);
        proof {
            lemma_line_start_is(self@, line as int, pos as int);
        }
        Ok(pos)
    }

    /// The index of the line that holds character `char_idx`: the number of line
    /// breaks that end before it.
    pub fn char_to_line(&self, char_idx: usize) -> (res: Result<usize, BufferError>)
        ensures
            res is Ok <==> char_idx <= self@.len(),
            res matches Ok(line) ==> line == breaks_before(self@, char_idx as int),
    {
        if char_idx > rope_len_chars(&self.rope) {
            return Err(BufferError::OutOfBounds);
        }
        Ok(rope_char_to_line(&self.rope, char_idx))
    }

    /// The byte offset at which character `char_idx` starts.
    pub fn char_to_byte(&self, char_idx: usize) -> (res: Result<usize, BufferError>)
        ensures
            res is Ok <==> char_idx <= self@.len(),
            res matches Ok(b) ==> b == utf8_len(self@.subrange(0, char_idx as int)),
    {
        if char_idx > rope_len_chars(&self.rope) {
            return Err(BufferError::OutOfBounds);
        }
        Ok(rope_char_to_byte(&self.rope, char_idx))
    }

    /// The index of the line that holds byte `byte_idx`: the number of line
    /// breaks that end before the character to which the byte belongs.
    pub fn byte_to_line(&self, byte_idx: usize) -> (res: Result<usize, BufferError>)
        ensures
            res is Ok <==> byte_idx <= utf8_len(self@),
            res matches Ok(line) ==> forall|i: int| #[trigger]
                byte_in_char(self@, i, byte_idx as int) ==> line == breaks_before(self@, i),
    {
        if byte_idx > rope_len_bytes(&self.rope) {
            return Err(BufferError::OutOfBounds);
        }
        Ok(rope_byte_to_line(&self.rope, byte_idx))
    }

    /// The characters of one line, its line break included. There is no line at
    /// or past the line count: a text without a final line break has no line
    /// after its last one.
    pub fn line_slice(&self, line: usize) -> (res: Result<String, BufferError>)
        ensures
            res is Ok <==> line < line_count(self@),
            res matches Ok(text) ==> text@ == line_text(self@, line as int),
    {
        match rope_get_line(&self.rope, line) {
            Some(slice) => Ok(slice_to_string(slice)),
            None => Err(BufferError::OutOfBounds),
        }
    }

    /// The text between two byte offsets, where both fall between characters and
    /// the first is not past the second.
    pub fn byte_range_text(&self, start: usize, end: usize) -> (res: Option<String>)
        ensures
            res is Some <==> start <= end && is_valid_column(
                PositionEncodingKind::UTF8,
                self@,
                start as int,
            ) && is_valid_column(PositionEncodingKind::UTF8, self@, end as int),
            res matches Some(text) ==> text@ == self@.subrange(
                column_to_char(PositionEncodingKind::UTF8, self@, start as int),
                column_to_char(PositionEncodingKind::UTF8, self@, end as int),
            ),
    {
        match rope_get_byte_slice(&self.rope, start, end) {
            Some(slice) => Some(slice_to_string(slice)),
            None => None,
        }
    }

    /// Resolves an editor position to a character index of the buffer. There is
    /// none where the line does not exist or the column does not fall between
    /// two characters of the line.
    pub fn resolve_position(&self, pos: Position, encoding: PositionEncodingKind) -> (res: Option<
        usize,
    >)
        ensures
            res is Some <==> position_resolves(encoding, self@, pos),
            res matches Some(i) ==> i == position_to_char(encoding, self@, pos) && i
                <= self@.len(),
    {
        let line = match rope_get_line(&self.rope, pos.line as usize) {
            Some(line) => line,
            None => {
                return None;
            },
        };
        let column = match resolve_column(encoding, pos.character, &line) {
            Some(column) => column,
            None => {
                return None;
            },
        };
        let start = rope_line_to_char(&self.rope, pos.line as usize);
        let len = rope_len_chars(&self.rope);
        proof {
            lemma_line_start_is(self@, pos.line as int, start as int);
            lemma_line_text_len(self@, pos.line as int);
            lemma_column_unique(
                encoding,
                line_text(self@, pos.line as int),
                pos.character as int,
                column as int,
                column_to_char(encoding, line_text(self@, pos.line as int), pos.character as int),
            );
            assert(start + column <= len);
        }
        Some(start + column)
    }

    /// The parser's point for character index `char_idx`, which the buffer has,
    /// with the byte offset of that character.
    fn locate(&self, char_idx: usize) -> (found: (Point, usize))
        requires
            char_idx <= self@.len(),
        ensures
            found.0 == point_at(self@, char_idx as int),
            found.1 == utf8_len(self@.subrange(0, char_idx as int)),
    {
        let bytes = rope_len_bytes(&self.rope);
        let mut row: usize = 0;
        let mut column: usize = 0;
        let mut i: usize = 0;
        proof {
            assert(self@.subrange(0, 0) =~= Seq::<char>::empty());
        }
        while i < char_idx
            invariant
                i <= char_idx <= self@.len(),
                bytes == utf8_len(self@),
                row == line_feeds_before(self@, i as int),
                0 <= row_start(self@, i as int) <= i,
                column == utf8_len(self@.subrange(row_start(self@, i as int), i as int)),
            decreases char_idx - i,
        {
            let c = rope_char(&self.rope, i);
            proof {
                let start = row_start(self@, i as int);
                lemma_row_bounds(self@, i as int);
                lemma_prefix_len_monotonic(self@, start, i + 1);
                lemma_prefix_len_monotonic(self@, i + 1, self@.len() as int);
                assert(self@.subrange(0, self@.len() as int) =~= self@);
                lemma_utf8_len_split(self@.subrange(0, i + 1), start);
                assert(self@.subrange(0, i + 1).subrange(0, start) =~= self@.subrange(0, start));
                assert(self@.subrange(0, i + 1).subrange(start, i + 1) =~= self@.subrange(
                    start,
                    i + 1,
                ));
                assert(self@.subrange(start, i + 1).drop_last() =~= self@.subrange(
                    start,
                    i as int,
                ));
                assert(self@.subrange(i + 1, i + 1) =~= Seq::<char>::empty());
            }
            if c == '\n' {
                row += 1;
                column = 0;
            } else if (c as u32) < 0x80 {
                column += 1;
            } else if (c as u32) < 0x800 {
                column += 2;
            } else if (c as u32) < 0x10000 {
                column += 3;
            } else {
                column += 4;
            }
            i += 1;
        }
        let byte = rope_char_to_byte(&self.rope, char_idx);
        (Point { row, column }, byte)
    }

    /// The parser's point for character index `char_idx`, with the byte offset
    /// of that character.
    pub fn point_of_char(&self, char_idx: usize) -> (res: Result<(Point, usize), BufferError>)
        ensures
            res is Ok <==> char_idx <= self@.len(),
            res matches Ok((point, byte)) ==> point == point_at(self@, char_idx as int) && byte
                == utf8_len(self@.subrange(0, char_idx as int)),
    {
        if char_idx > rope_len_chars(&self.rope) {
            return Err(BufferError::OutOfBounds);
        }
        Ok(self.locate(char_idx))
    }

    /// Replaces the characters `[char_start, char_end)`, which the buffer has,
    /// by `text` and returns what the syntax tree must be told of the edit.
    pub(crate) fn edit(&mut self, char_start: usize, char_end: usize, text: &str) -> (edit:
        TreeEdit)
        requires
            char_start <= char_end <= old(self)@.len(),
        ensures
            edit == tree_edit_for(old(self)@, char_start as int, char_end as int, text@),
            final(self)@ == splice(old(self)@, char_start as int, char_end as int, text@),
    {
        let ghost before = self@;
        let len = rope_len_chars(&self.rope);
        let (start_position, start_byte) = self.locate(char_start);
        let (old_end_position, old_end_byte) = self.locate(char_end);
        let tail = len - char_end;
        self.splice_in(char_start, char_end, text);
        let new_end = rope_len_chars(&self.rope) - tail;
        proof {
            assert(new_end == char_start + text@.len());
            assert(self@.subrange(0, new_end as int) =~= before.subrange(0, char_start as int)
                + text@);
            lemma_utf8_len_concat(before.subrange(0, char_start as int), text@);
        }
        let (new_end_position, new_end_byte) = self.locate(new_end);
        TreeEdit {
            start_byte,
            old_end_byte,
            new_end_byte,
            start_position,
            old_end_position,
            new_end_position,
        }
    }

    /// Replaces the characters `[char_start, char_end)` by `text` and returns
    /// what the syntax tree must be told of the edit. A range that ends past the
    /// buffer, or before its start, is refused and changes nothing.
    pub fn apply_edit(&mut self, char_start: usize, char_end: usize, text: &str) -> (res: Result<
        TreeEdit,
        BufferError,
    >)
        ensures
            res is Ok <==> char_start <= char_end <= old(self)@.len(),
            res matches Ok(edit) ==> edit == tree_edit_for(
                old(self)@,
                char_start as int,
                char_end as int,
                text@,
            ),
            res is Ok ==> final(self)@ == splice(
                old(self)@,
                char_start as int,
                char_end as int,
                text@,
            ),
            res is Err ==> final(self)@ == old(self)@,
    {
        if char_start > char_end || char_end > rope_len_chars(&self.rope) {
            return Err(BufferError::OutOfBounds);
        }
        Ok(self.edit(char_start, char_end, text))
    }
}

} // verus!

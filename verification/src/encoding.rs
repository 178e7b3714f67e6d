//! Widths of characters and of texts under the position encodings an editor may use.

use vstd::prelude::*;

verus! {

/// The unit in which an editor counts the columns of a line.
#[derive(Clone, Copy, Debug, PartialEq, Eq, Structural)]
pub enum PositionEncodingKind {
    /// Columns count UTF-8 bytes.
    UTF8,
    /// Columns count UTF-16 code units.
    UTF16,
    /// Columns count Unicode scalar values.
    UTF32,
}

/// Number of bytes that `c` takes in UTF-8.
pub open spec fn utf8_width(c: char) -> nat {
    if (c as u32) < 0x80 {
        1
    } else if (c as u32) < 0x800 {
        2
    } else if (c as u32) < 0x10000 {
        3
    } else {
        4
    }
}

/// Number of code units that `c` takes in UTF-16.
pub open spec fn utf16_width(c: char) -> nat {
    if (c as u32) < 0x10000 {
        1
    } else {
        2
    }
}

/// Number of bytes that the text `s` takes in UTF-8.
pub open spec fn utf8_len(s: Seq<char>) -> nat
    decreases s.len(),
{
    if s.len() == 0 {
        0
    } else {
        utf8_len(s.drop_last()) + utf8_width(s.last())
    }
}

/// Number of code units that the text `s` takes in UTF-16.
pub open spec fn utf16_len(s: Seq<char>) -> nat
    decreases s.len(),
{
    if s.len() == 0 {
        0
    } else {
        utf16_len(s.drop_last()) + utf16_width(s.last())
    }
}

/// Width of the text `s` in the units of `encoding`.
pub open spec fn encoded_len(encoding: PositionEncodingKind, s: Seq<char>) -> nat {
    match encoding {
        PositionEncodingKind::UTF8 => utf8_len(s),
        PositionEncodingKind::UTF16 => utf16_len(s),
        PositionEncodingKind::UTF32 => s.len(),
    }
}

/// The UTF-8 length of a concatenation is the sum of the lengths.
pub proof fn lemma_utf8_len_concat(a: Seq<char>, b: Seq<char>)
    ensures
        utf8_len(a + b) == utf8_len(a) + utf8_len(b),
    decreases b.len(),
{
    if b.len() == 0 {
        assert(a + b =~= a);
    } else {
        assert((a + b).drop_last() =~= a + b.drop_last());
        lemma_utf8_len_concat(a, b.drop_last());
    }
}

/// The UTF-16 length of a concatenation is the sum of the lengths.
pub proof fn lemma_utf16_len_concat(a: Seq<char>, b: Seq<char>)
    ensures
        utf16_len(a + b) == utf16_len(a) + utf16_len(b),
    decreases b.len(),
{
    if b.len() == 0 {
        assert(a + b =~= a);
    } else {
        assert((a + b).drop_last() =~= a + b.drop_last());
        lemma_utf16_len_concat(a, b.drop_last());
    }
}

/// A text is at least as long in bytes, and in UTF-16 units, as in characters,
/// and never longer in UTF-16 units than in bytes.
pub proof fn lemma_len_bounds(s: Seq<char>)
    ensures
        s.len() <= utf16_len(s) <= utf8_len(s),
        utf8_len(s) <= 4 * s.len(),
    decreases s.len(),
{
    if s.len() > 0 {
        lemma_len_bounds(s.drop_last());
    }
}

/// Splitting a text at `i` splits its UTF-8 length.
pub proof fn lemma_utf8_len_split(s: Seq<char>, i: int)
    requires
        0 <= i <= s.len(),
    ensures
        utf8_len(s) == utf8_len(s.subrange(0, i)) + utf8_len(s.subrange(i, s.len() as int)),
{
    assert(s =~= s.subrange(0, i) + s.subrange(i, s.len() as int));
    lemma_utf8_len_concat(s.subrange(0, i), s.subrange(i, s.len() as int));
}

/// Splitting a text at `i` splits its UTF-16 length.
pub proof fn lemma_utf16_len_split(s: Seq<char>, i: int)
    requires
        0 <= i <= s.len(),
    ensures
        utf16_len(s) == utf16_len(s.subrange(0, i)) + utf16_len(s.subrange(i, s.len() as int)),
{
    assert(s =~= s.subrange(0, i) + s.subrange(i, s.len() as int));
    lemma_utf16_len_concat(s.subrange(0, i), s.subrange(i, s.len() as int));
}

/// Longer prefixes are longer in every encoding, strictly so in bytes and UTF-16 units.
pub proof fn lemma_prefix_len_monotonic(s: Seq<char>, i: int, j: int)
    requires
        0 <= i <= j <= s.len(),
    ensures
        utf8_len(s.subrange(0, i)) + (j - i) <= utf8_len(s.subrange(0, j)),
        utf16_len(s.subrange(0, i)) + (j - i) <= utf16_len(s.subrange(0, j)),
{
    let p = s.subrange(0, j);
    assert(p.subrange(0, i) =~= s.subrange(0, i));
    lemma_utf8_len_split(p, i);
    lemma_utf16_len_split(p, i);
    lemma_len_bounds(p.subrange(i, j));
}

} // verus!

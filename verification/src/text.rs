//! Operations of the standard library on strings that the library relies on.

use vstd::prelude::*;
use vstd::string::{StrSliceExecFns, StringExecFns};

verus! {

/// The characters of an optional string.
pub open spec fn optional_text(text: Option<String>) -> Option<Seq<char>> {
    match text {
        Some(text) => Some(text@),
        None => None,
    }
}

/// The text that `str::to_uppercase` gives for `s`.
pub uninterp spec fn uppercase(s: Seq<char>) -> Seq<char>;

/// The text that `str::to_lowercase` gives for `s`.
pub uninterp spec fn lowercase(s: Seq<char>) -> Seq<char>;

/// `str::to_uppercase`: the upper-case form of `s`, as Unicode defines it.
#[verifier::external_body]
pub(crate) fn str_to_uppercase(s: &str) -> (upper: String)
    ensures
        upper@ == uppercase(s@),
{
    s.to_uppercase()
}

/// `str::to_lowercase`: the lower-case form of `s`, as Unicode defines it.
#[verifier::external_body]
pub(crate) fn str_to_lowercase(s: &str) -> (lower: String)
    ensures
        lower@ == lowercase(s@),
{
    s.to_lowercase()
}

/// Whether two string slices hold the same characters.
pub(crate) fn str_eq(a: &str, b: &str) -> (same: bool)
    ensures
        same == (a@ == b@),
{
    let left = a.to_owned();
    let right = b.to_owned();
    left == right
}

/// `String::push`: appends one character.
#[verifier::external_body]
pub(crate) fn string_push(s: &mut String, c: char)
    ensures
        final(s)@ == old(s)@.push(c),
{
    s.push(c)
}

/// Appends the characters of `tail` to `s`.
pub(crate) fn string_push_str(s: &mut String, tail: &str)
    ensures
        final(s)@ == old(s)@ + tail@,
{
    s.append(tail)
}

/// The character for one decimal digit.
pub open spec fn digit_char(d: nat) -> char {
    if d == 0 {
        '0'
    } else if d == 1 {
        '1'
    } else if d == 2 {
        '2'
    } else if d == 3 {
        '3'
    } else if d == 4 {
        '4'
    } else if d == 5 {
        '5'
    } else if d == 6 {
        '6'
    } else if d == 7 {
        '7'
    } else if d == 8 {
        '8'
    } else {
        '9'
    }
}

/// The decimal digits of `n`, without leading zeros.
pub open spec fn decimal(n: nat) -> Seq<char>
    decreases n,
{
    if n < 10 {
        seq![digit_char(n)]
    } else {
        decimal(n / 10).push(digit_char(n % 10))
    }
}

/// `n` spaces.
pub open spec fn spaces(n: nat) -> Seq<char> {
    Seq::new(n, |i: int| ' ')
}

/// `text`, followed by as many spaces as it lacks to be `width` characters wide.
pub open spec fn padded(text: Seq<char>, width: nat) -> Seq<char> {
    if text.len() >= width {
        text
    } else {
        text + spaces((width - text.len()) as nat)
    }
}

/// Computes the character for one decimal digit.
pub fn digit_to_char(d: usize) -> (c: char)
    requires
        d < 10,
    ensures
        c == digit_char(d as nat),
{
    if d == 0 {
        '0'
    } else if d == 1 {
        '1'
    } else if d == 2 {
        '2'
    } else if d == 3 {
        '3'
    } else if d == 4 {
        '4'
    } else if d == 5 {
        '5'
    } else if d == 6 {
        '6'
    } else if d == 7 {
        '7'
    } else if d == 8 {
        '8'
    } else {
        '9'
    }
}

/// Appends the decimal digits of `n` to `s`.
pub fn push_decimal(s: &mut String, n: usize)
    ensures
        final(s)@ == old(s)@ + decimal(n as nat),
    decreases n,
{
    if n >= 10 {
        push_decimal(s, n / 10);
    }
    string_push(s, digit_to_char(n % 10));
    proof {
        if n >= 10 {
            assert((old(s)@ + decimal((n / 10) as nat)).push(digit_char((n % 10) as nat)) =~= old(
                s,
            )@ + decimal(n as nat));
        } else {
            assert(old(s)@.push(digit_char(n as nat)) =~= old(s)@ + decimal(n as nat));
        }
    }
}

/// The decimal digits of `n`.
pub fn to_decimal(n: usize) -> (digits: String)
    ensures
        digits@ == decimal(n as nat),
{
    let mut digits = String::new();
    push_decimal(&mut digits, n);
    assert(Seq::<char>::empty() + decimal(n as nat) =~= decimal(n as nat));
    digits
}

/// Appends `text` to `s`, followed by as many spaces as `text` lacks to be
/// `width` characters wide.
pub fn push_padded(s: &mut String, text: &str, width: usize)
    ensures
        final(s)@ == old(s)@ + padded(text@, width as nat),
{
    string_push_str(s, text);
    let len = text.unicode_len();
    let mut i: usize = len;
    while i < width
        invariant
            len == text@.len(),
            len <= i,
            len < width ==> i <= width,
            len >= width ==> i == len,
            s@ == old(s)@ + text@ + spaces((i - len) as nat),
        decreases width - i,
    {
        string_push(s, ' ');
        assert(spaces((i - len) as nat).push(' ') =~= spaces((i + 1 - len) as nat));
        assert((old(s)@ + text@ + spaces((i - len) as nat)).push(' ') =~= old(s)@ + text@
            + spaces((i - len) as nat).push(' '));
        i += 1;
    }
    proof {
        if len >= width {
            assert(i == len);
            assert(spaces(0) =~= Seq::<char>::empty());
            assert(old(s)@ + text@ + spaces(0) =~= old(s)@ + text@);
            assert(padded(text@, width as nat) == text@);
        } else {
            assert(i == width);
            assert(old(s)@ + text@ + spaces((width - len) as nat) =~= old(s)@ + (text@ + spaces(
                (width - len) as nat,
            )));
        }
    }
}

/// Whether `pattern` occurs in `text`.
pub open spec fn occurs_in(text: Seq<char>, pattern: Seq<char>) -> bool {
    exists|i: int|
        0 <= i <= text.len() - pattern.len() && #[trigger] text.subrange(i, i + pattern.len())
            == pattern
}

/// `text` with `to` before each of its characters and after the last.
pub open spec fn interleaved(text: Seq<char>, to: Seq<char>) -> Seq<char>
    decreases text.len(),
{
    if text.len() == 0 {
        to
    } else {
        interleaved(text.drop_last(), to) + seq![text.last()] + to
    }
}

/// `text` with each occurrence of `from` replaced by `to`. The occurrences
/// are looked for from the left, each after the end of the one before it. An
/// empty `from` occurs before each character and after the last.
pub open spec fn replaced(text: Seq<char>, from: Seq<char>, to: Seq<char>) -> Seq<char>
    decreases text.len(),
{
    if from.len() == 0 {
        interleaved(text, to)
    } else if text.len() < from.len() {
        text
    } else if text.subrange(0, from.len() as int) == from {
        to + replaced(text.subrange(from.len() as int, text.len() as int), from, to)
    } else {
        seq![text[0]] + replaced(text.subrange(1, text.len() as int), from, to)
    }
}

/// `str::contains` with a string for the pattern: whether the pattern occurs.
#[verifier::external_body]
pub(crate) fn str_contains(text: &str, pattern: &str) -> (found: bool)
    ensures
        found == occurs_in(text@, pattern@),
{
    text.contains(pattern)
}

/// `str::replace` with a string for the pattern: each occurrence of `from`,
/// found from the left without overlap, is replaced by `to`. An empty `from`
/// occurs before each character and after the last.
#[verifier::external_body]
pub(crate) fn str_replace(text: &str, from: &str, to: &str) -> (res: String)
    ensures
        res@ == replaced(text@, from@, to@),
{
    text.replace(from, to)
}

} // verus!

//! The line structure of a text: where lines end and where they start.

use vstd::prelude::*;

verus! {

/// Whether `c` is one of the characters that can end a line.
pub open spec fn is_break_char(c: char) -> bool {
    c == '\u{000A}' || c == '\u{000B}' || c == '\u{000C}' || c == '\u{000D}' || c == '\u{0085}'
        || c == '\u{2028}' || c == '\u{2029}'
}

/// Whether the character at index `i` of `s` is the last character of a line break.
/// A carriage return directly followed by a line feed does not end the line:
/// the two form one break, which ends at the line feed.
pub open spec fn line_ends_at(s: Seq<char>, i: int) -> bool {
    &&& 0 <= i < s.len()
    &&& is_break_char(s[i])
    &&& !(s[i] == '\u{000D}' && i + 1 < s.len() && s[i + 1] == '\u{000A}')
}

/// Number of line breaks that end before character index `n` of `s`.
pub open spec fn breaks_before(s: Seq<char>, n: int) -> nat
    decreases n,
{
    if n <= 0 {
        0
    } else {
        breaks_before(s, n - 1) + if line_ends_at(s, n - 1) {
            1nat
        } else {
            0nat
        }
    }
}

/// Number of lines of `s`: one more than the number of its line breaks.
pub open spec fn line_count(s: Seq<char>) -> nat {
    breaks_before(s, s.len() as int) + 1
}

/// Whether line `line` of `s` starts at character index `pos`. Line 0 starts at 0,
/// every other line directly after a line break, and the line one past the last
/// at the end of the text.
pub open spec fn line_starts_at(s: Seq<char>, line: int, pos: int) -> bool {
    if line == line_count(s) {
        pos == s.len()
    } else {
        &&& 0 <= pos <= s.len()
        &&& breaks_before(s, pos) == line
        &&& (pos == 0 || line_ends_at(s, pos - 1))
    }
}

/// The character index at which line `line` of `s` starts.
pub open spec fn line_start(s: Seq<char>, line: int) -> int {
    choose|pos: int| line_starts_at(s, line, pos)
}

/// The characters of line `line` of `s`, its line break included.
pub open spec fn line_text(s: Seq<char>, line: int) -> Seq<char> {
    s.subrange(line_start(s, line), line_start(s, line + 1))
}

/// The number of breaks before an index does not shrink as the index grows.
pub proof fn lemma_breaks_monotonic(s: Seq<char>, i: int, j: int)
    requires
        i <= j,
    ensures
        breaks_before(s, i) <= breaks_before(s, j),
    decreases j - i,
{
    if i < j {
        lemma_breaks_monotonic(s, i, j - 1);
    }
}

/// There are no more breaks before an index than characters.
pub proof fn lemma_breaks_bound(s: Seq<char>, n: int)
    ensures
        breaks_before(s, n) <= if n < 0 { 0 } else { n },
        n >= s.len() ==> breaks_before(s, n) == breaks_before(s, s.len() as int),
    decreases n,
{
    if n > 0 {
        lemma_breaks_bound(s, n - 1);
    }
}

/// A line starts at one place only.
pub proof fn lemma_line_start_unique(s: Seq<char>, line: int, p: int, q: int)
    requires
        line_starts_at(s, line, p),
        line_starts_at(s, line, q),
    ensures
        p == q,
{
    if line != line_count(s) {
        if p < q {
            lemma_breaks_monotonic(s, p, q - 1);
        } else if q < p {
            lemma_breaks_monotonic(s, q, p - 1);
        }
    }
}

/// Where a line is known to start is where `line_start` puts it.
pub proof fn lemma_line_start_is(s: Seq<char>, line: int, p: int)
    requires
        line_starts_at(s, line, p),
    ensures
        line_start(s, line) == p,
{
    lemma_line_start_unique(s, line, p, line_start(s, line));
}

/// Some index at or before `n` is the start of `line`, where no more than
/// `breaks_before(s, n)` breaks are asked for.
proof fn lemma_line_start_found(s: Seq<char>, line: int, n: int)
    requires
        0 <= n <= s.len(),
        0 <= line <= breaks_before(s, n),
        line < line_count(s),
    ensures
        exists|p: int| 0 <= p <= n && line_starts_at(s, line, p),
    decreases n,
{
    if n == 0 {
        assert(line_starts_at(s, line, 0));
    } else if line <= breaks_before(s, n - 1) {
        lemma_line_start_found(s, line, n - 1);
    } else {
        assert(line_starts_at(s, line, n));
    }
}

/// Every line up to the one past the last starts somewhere in the text.
pub proof fn lemma_line_start_exists(s: Seq<char>, line: int)
    requires
        0 <= line <= line_count(s),
    ensures
        line_starts_at(s, line, line_start(s, line)),
        0 <= line_start(s, line) <= s.len(),
{
    if line == line_count(s) {
        assert(line_starts_at(s, line, s.len() as int));
    } else {
        lemma_line_start_found(s, line, s.len() as int);
    }
}

/// Later lines start later.
pub proof fn lemma_line_start_monotonic(s: Seq<char>, a: int, b: int)
    requires
        0 <= a <= b <= line_count(s),
    ensures
        0 <= line_start(s, a) <= line_start(s, b) <= s.len(),
{
    lemma_line_start_exists(s, a);
    lemma_line_start_exists(s, b);
    let p = line_start(s, a);
    let q = line_start(s, b);
    if b != line_count(s) && q < p {
        lemma_breaks_monotonic(s, q, p);
    }
}

/// A line is as long as the distance between its start and the next line's.
pub proof fn lemma_line_text_len(s: Seq<char>, line: int)
    requires
        0 <= line < line_count(s),
    ensures
        line_text(s, line).len() == line_start(s, line + 1) - line_start(s, line),
        0 <= line_start(s, line) <= line_start(s, line + 1) <= s.len(),
{
    lemma_line_start_monotonic(s, line, line + 1);
}

/// Number of line feeds before character index `n` of `s`: the row in which
/// the parser puts that character.
pub open spec fn line_feeds_before(s: Seq<char>, n: int) -> nat
    decreases n,
{
    if n <= 0 {
        0
    } else {
        line_feeds_before(s, n - 1) + if n - 1 < s.len() && s[n - 1] == '\u{000A}' {
            1nat
        } else {
            0nat
        }
    }
}

/// The character index at which the row of character index `i` starts: the
/// index after the last line feed before `i`, or 0 where there is none.
pub open spec fn row_start(s: Seq<char>, i: int) -> int
    decreases i,
{
    if i <= 0 {
        0
    } else if i - 1 < s.len() && s[i - 1] == '\u{000A}' {
        i
    } else {
        row_start(s, i - 1)
    }
}

/// A row starts at or before each of its characters, and there are no more
/// line feeds before a character than characters.
pub proof fn lemma_row_bounds(s: Seq<char>, i: int)
    requires
        0 <= i,
    ensures
        0 <= row_start(s, i) <= i,
        line_feeds_before(s, i) <= i,
    decreases i,
{
    if i > 0 {
        lemma_row_bounds(s, i - 1);
    }
}

} // verus!

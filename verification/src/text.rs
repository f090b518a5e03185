//! Document text held in a rope, and the lines it falls into.

use ropey::Rope;
use vstd::prelude::*;

verus! {

/// `ropey::Rope`: a text that is cheap to index by line, known here only by
/// the characters it holds.
#[verifier::external_type_specification]
#[verifier::external_body]
pub struct ExRope(Rope);

/// The characters that a rope holds, first to last.
pub uninterp spec fn rope_text(rope: Rope) -> Seq<char>;

/// `c` is one of the characters that break a line: line feed, vertical tab,
/// form feed, carriage return, next line, line separator, paragraph
/// separator.
pub open spec fn is_break_char(c: char) -> bool {
    c == '\n' || c == '\u{0B}' || c == '\u{0C}' || c == '\r' || c == '\u{85}' || c == '\u{2028}'
        || c == '\u{2029}'
}

/// A line break ends with the character at index `i`. A carriage return
/// that a line feed follows does not end one: the pair is a single break,
/// which ends with the line feed.
pub open spec fn break_ends_at(text: Seq<char>, i: int) -> bool {
    &&& 0 <= i < text.len()
    &&& is_break_char(text[i])
    &&& !(text[i] == '\r' && i + 1 < text.len() && text[i + 1] == '\n')
}

/// The number of line breaks that end before index `idx`.
pub open spec fn breaks_before(text: Seq<char>, idx: int) -> nat
    decreases idx,
{
    if idx <= 0 {
        0
    } else {
        breaks_before(text, idx - 1) + if break_ends_at(text, idx - 1) {
            1nat
        } else {
            0nat
        }
    }
}

/// The number of lines of a text: one more than it has line breaks, so that
/// a text that ends with a break has an empty last line.
pub open spec fn line_count(text: Seq<char>) -> nat {
    breaks_before(text, text.len() as int) + 1
}

/// The index just after the first line break that ends at or after `from`,
/// or the length of the text where there is none.
pub open spec fn next_line_start(text: Seq<char>, from: int) -> int
    decreases text.len() - from,
{
    if from < 0 || from >= text.len() {
        text.len() as int
    } else if break_ends_at(text, from) {
        from + 1
    } else {
        next_line_start(text, from + 1)
    }
}

/// The index at which line `line` starts; the length of the text for a line
/// past the last.
pub open spec fn line_start(text: Seq<char>, line: nat) -> int
    decreases line,
{
    if line == 0 {
        0
    } else {
        next_line_start(text, line_start(text, (line - 1) as nat))
    }
}

/// The characters of line `line`, its line break included.
pub open spec fn line_text(text: Seq<char>, line: nat) -> Seq<char> {
    text.subrange(line_start(text, line), line_start(text, line + 1))
}

/// The number of line breaks before an index grows with the index, so
/// every index of a text stands on one of its lines.
pub proof fn lemma_breaks_before_monotonic(text: Seq<char>, a: int, b: int)
    requires
        a <= b,
    ensures
        breaks_before(text, a) <= breaks_before(text, b),
    decreases b - a,
{
    if a < b {
        lemma_breaks_before_monotonic(text, a, b - 1);
    }
}

/// No more line breaks end before an index than there are characters
/// before it.
pub proof fn lemma_breaks_before_bound(text: Seq<char>, idx: int)
    requires
        0 <= idx,
    ensures
        breaks_before(text, idx) <= idx,
    decreases idx,
{
    if idx > 0 {
        lemma_breaks_before_bound(text, idx - 1);
    }
}

/// Calls `Rope::from_str`: a rope that holds the characters of `text`.
#[verifier::external_body]
pub(crate) fn rope_from_str(text: &str) -> (rope: Rope)
    ensures
        rope_text(rope) == text@,
{
    Rope::from_str(text)
}

/// Calls `Rope::len_chars`: the number of characters held.
#[verifier::external_body]
pub(crate) fn rope_len_chars(rope: &Rope) -> (len: usize)
    ensures
        len == rope_text(*rope).len(),
{
    rope.len_chars()
}

/// Calls `Rope::len_lines`: the number of lines, one more than the number
/// of line breaks.
#[verifier::external_body]
pub(crate) fn rope_len_lines(rope: &Rope) -> (lines: usize)
    ensures
        lines == line_count(rope_text(*rope)),
{
    rope.len_lines()
}

/// Calls `Rope::char_to_line`: the index of the line that holds the
/// character at `idx`, which is the number of line breaks before it. The
/// outside function panics where `idx` is beyond the end.
#[verifier::external_body]
pub(crate) fn rope_char_to_line(rope: &Rope, idx: usize) -> (line: usize)
    requires
        idx <= rope_text(*rope).len(),
    ensures
        line == breaks_before(rope_text(*rope), idx as int),
{
    rope.char_to_line(idx)
}

/// Calls `Rope::line` and copies the line out as a `String`: the characters
/// of line `line`, its line break included. The outside function panics
/// where there is no such line.
#[verifier::external_body]
pub(crate) fn rope_line(rope: &Rope, line: usize) -> (content: String)
    requires
        line < line_count(rope_text(*rope)),
    ensures
        content@ == line_text(rope_text(*rope), line as nat),
{
    String::from(rope.line(line))
}

/// The characters of `s`, one by one.
pub fn chars_of(s: &str) -> (chars: Vec<char>)
    ensures
        chars@ == s@,
{
    let mut chars: Vec<char> = Vec::new();
    for c in it: s.chars()
        invariant
            it.seq() == s@,
            chars@ == it.seq().subrange(0, it.index()),
    {
        chars.push(c);
        assert(chars@ =~= it.seq().subrange(0, it.index() + 1));
    }
    assert(chars@ =~= s@);
    chars
}

} // verus!

//! The word under the cursor and its documentation.

use crate::diagnostics::{Position, Range};
use crate::documentation::{documentation_of, Documentation};
use crate::text::{chars_of, line_count, line_text, rope_len_lines, rope_line, rope_text};
use ropey::Rope;
use vstd::prelude::*;
use vstd::string::StrSliceExecFns;

verus! {

/// Where the word at `column` starts: the cursor moves left while the
/// character before it is not a space. Beyond the end of the line there is
/// no character before the cursor, and it stays.
pub open spec fn word_start(line: Seq<char>, column: int) -> int
    decreases column,
{
    if column <= 0 || column > line.len() || line[column - 1] == ' ' {
        column
    } else {
        word_start(line, column - 1)
    }
}

/// Where the word at `column` ends: the cursor moves right while the
/// character under it is neither a space nor a line feed, and stops at the
/// end of the line.
pub open spec fn word_end(line: Seq<char>, column: int) -> int
    decreases line.len() - column,
{
    if column < 0 || column >= line.len() || line[column] == ' ' || line[column] == '\n' {
        column
    } else {
        word_end(line, column + 1)
    }
}

/// The word at `column` of `line`; empty beyond the end of the line.
pub open spec fn word_at(line: Seq<char>, column: int) -> Seq<char> {
    if 0 <= column <= line.len() {
        line.subrange(word_start(line, column), word_end(line, column))
    } else {
        Seq::empty()
    }
}

/// Line `line` of `text`; the empty line where the text has no such line.
pub open spec fn line_or_empty(text: Seq<char>, line: nat) -> Seq<char> {
    if line < line_count(text) {
        line_text(text, line)
    } else {
        Seq::empty()
    }
}

/// The word under the cursor with the columns that bracket it.
#[derive(Debug, Clone, PartialEq, Eq)]
pub struct HoveredWord {
    pub word: String,
    pub start: usize,
    pub end: usize,
}

/// What is shown for a hover: the documentation of the word, as markdown,
/// and the range of the word.
#[derive(Debug, Clone, PartialEq, Eq)]
pub struct Hover {
    pub contents: String,
    pub range: Range,
}

/// The start of a word lies between the start of the line and the cursor,
/// and its end between the cursor and the end of the line.
pub proof fn lemma_word_bounds(line: Seq<char>, column: int)
    requires
        0 <= column <= line.len(),
    ensures
        0 <= word_start(line, column) <= column <= word_end(line, column) <= line.len(),
{
    lemma_word_start_bounds(line, column);
    lemma_word_end_bounds(line, column);
}

proof fn lemma_word_start_bounds(line: Seq<char>, column: int)
    requires
        0 <= column <= line.len(),
    ensures
        0 <= word_start(line, column) <= column,
    decreases column,
{
    if !(column <= 0 || line[column - 1] == ' ') {
        lemma_word_start_bounds(line, column - 1);
    }
}

proof fn lemma_word_end_bounds(line: Seq<char>, column: int)
    requires
        0 <= column <= line.len(),
    ensures
        column <= word_end(line, column) <= line.len(),
    decreases line.len() - column,
{
    if !(column >= line.len() || line[column] == ' ' || line[column] == '\n') {
        lemma_word_end_bounds(line, column + 1);
    }
}

/// Hovering anywhere within a run of characters that holds no space and no
/// line feed, that starts the line or follows a space, and that a space, a
/// line feed or the end of the line follows, gives that whole run: its
/// first column as the start and the column after its last as the end.
pub proof fn lemma_hover_within_run(line: Seq<char>, first: int, after: int, column: int)
    requires
        0 <= first <= column <= after <= line.len(),
        forall|j: int| first <= j < after ==> line[j] != ' ' && line[j] != '\n',
        first == 0 || line[first - 1] == ' ',
        after == line.len() || line[after] == ' ' || line[after] == '\n',
    ensures
        word_start(line, column) == first,
        word_end(line, column) == after,
        word_at(line, column) == line.subrange(first, after),
{
    lemma_run_start(line, first, column);
    lemma_run_end(line, after, column);
}

proof fn lemma_run_start(line: Seq<char>, first: int, column: int)
    requires
        0 <= first <= column <= line.len(),
        forall|j: int| first <= j < column ==> line[j] != ' ',
        first == 0 || line[first - 1] == ' ',
    ensures
        word_start(line, column) == first,
    decreases column - first,
{
    if column > first {
        lemma_run_start(line, first, column - 1);
    }
}

proof fn lemma_run_end(line: Seq<char>, after: int, column: int)
    requires
        0 <= column <= after <= line.len(),
        forall|j: int| column <= j < after ==> line[j] != ' ' && line[j] != '\n',
        after == line.len() || line[after] == ' ' || line[after] == '\n',
    ensures
        word_end(line, column) == after,
    decreases after - column,
{
    if column < after {
        lemma_run_end(line, after, column + 1);
    }
}

/// Hovering on a space that starts the line or follows another space gives
/// the empty word, which has no documentation.
pub proof fn lemma_hover_on_space(line: Seq<char>, column: int, entries: Seq<crate::documentation::DocEntry>)
    requires
        0 <= column < line.len(),
        line[column] == ' ',
        column == 0 || line[column - 1] == ' ',
    ensures
        word_start(line, column) == column,
        word_end(line, column) == column,
        word_at(line, column) == Seq::<char>::empty(),
        documentation_of(entries, word_at(line, column)) == Seq::<char>::empty(),
{
    assert(line.subrange(column, column) =~= Seq::<char>::empty());
}

/// Finds the word at `column` of `line`.
pub fn hovered_word(line: &str, column: usize) -> (found: HoveredWord)
    ensures
        found.start == word_start(line@, column as int),
        found.end == word_end(line@, column as int),
        found.word@ == word_at(line@, column as int),
{
    let chars = chars_of(line);
    if column > chars.len() {
        return HoveredWord { word: String::new(), start: column, end: column };
    }
    let mut start: usize = column;
    while start >= 1 && chars[start - 1] != ' '
        invariant
            chars@ == line@,
            start <= column <= chars@.len(),
            word_start(line@, start as int) == word_start(line@, column as int),
        decreases start,
    {
        start = start - 1;
    }
    let mut end: usize = column;
    while end < chars.len() && chars[end] != ' ' && chars[end] != '\n'
        invariant
            chars@ == line@,
            column <= end <= chars@.len(),
            word_end(line@, end as int) == word_end(line@, column as int),
        decreases chars@.len() - end,
    {
        end = end + 1;
    }
    let word = line.substring_char(start, end).to_owned();
    HoveredWord { word, start, end }
}

/// Answers a hover at line `line`, column `character` of a document: the
/// word there, bracketed by its columns, and its documentation. A document
/// that is not there, and a line that the document does not have, count as
/// empty.
pub fn hover(content: Option<&Rope>, line: usize, character: usize, docs: &Documentation) -> (shown:
    Hover)
    ensures
        ({
            let text = match content {
                Some(rope) => line_or_empty(rope_text(*rope), line as nat),
                None => Seq::<char>::empty(),
            };
            &&& shown.contents@ == documentation_of(docs.entries@, word_at(text, character as int))
            &&& shown.range == (Range {
                start: Position { line, character: word_start(text, character as int) as usize },
                end: Position { line, character: word_end(text, character as int) as usize },
            })
        }),
{
    let text = match content {
        Some(rope) => if line < rope_len_lines(rope) {
            rope_line(rope, line)
        } else {
            String::new()
        },
        None => String::new(),
    };
    let found = hovered_word(text.as_str(), character);
    let contents = docs.lookup(found.word.as_str());
    Hover {
        contents,
        range: Range {
            start: Position { line, character: found.start },
            end: Position { line, character: found.end },
        },
    }
}

} // verus!

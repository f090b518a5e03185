//! Diagnostics for the lines of the asserts section.
//!
//! Every line after the marker line is looked at. Its leading token is what
//! stands before the first space, line feed or `#`. A line whose leading
//! token is neither empty nor `jsonpath` is flagged.

use crate::sections::{marker_line, HurlSectionPositions};
use crate::text::{chars_of, line_count, line_text, rope_len_lines, rope_line, rope_text};
use ropey::Rope;
use vstd::prelude::*;
use vstd::string::StrSliceExecFns;
use vstd::utf8::encode_utf8;

verus! {

/// A place in a document: a line and a column, both counted from zero.
#[derive(Debug, Clone, Copy, PartialEq, Eq, Structural)]
pub struct Position {
    pub line: usize,
    pub character: usize,
}

/// A stretch of a document, from `start` up to `end`.
#[derive(Debug, Clone, Copy, PartialEq, Eq, Structural)]
pub struct Range {
    pub start: Position,
    pub end: Position,
}

/// How grave a diagnostic is.
#[derive(Debug, Clone, Copy, PartialEq, Eq, Structural)]
pub enum Severity {
    Error,
    Warning,
    Information,
    Hint,
}

/// A flagged range with what is wrong there.
#[derive(Debug, Clone, PartialEq, Eq)]
pub struct Diagnostic {
    pub range: Range,
    pub severity: Severity,
    pub source: String,
    pub message: String,
}

/// A diagnostic as a mathematical value.
pub ghost struct DiagnosticView {
    pub range: Range,
    pub severity: Severity,
    pub source: Seq<char>,
    pub message: Seq<char>,
}

impl View for Diagnostic {
    type V = DiagnosticView;

    open spec fn view(&self) -> DiagnosticView {
        DiagnosticView {
            range: self.range,
            severity: self.severity,
            source: self.source@,
            message: self.message@,
        }
    }
}

/// The views of a sequence of diagnostics, in the same order.
pub open spec fn views(diagnostics: Seq<Diagnostic>) -> Seq<DiagnosticView> {
    diagnostics.map_values(|d: Diagnostic| d@)
}

/// The one query type that is recognized: `jsonpath`.
pub open spec fn keyword() -> Seq<char> {
    seq!['j', 's', 'o', 'n', 'p', 'a', 't', 'h']
}

/// The source that diagnostics name: `LSP`.
pub open spec fn diagnostic_source() -> Seq<char> {
    seq!['L', 'S', 'P']
}

/// The message of every diagnostic: `Invalid assert`.
pub open spec fn diagnostic_message() -> Seq<char> {
    seq!['I', 'n', 'v', 'a', 'l', 'i', 'd', ' ', 'a', 's', 's', 'e', 'r', 't']
}

/// `c` ends a leading token: a space, a line feed or the comment sign.
pub open spec fn is_token_end(c: char) -> bool {
    c == ' ' || c == '\n' || c == '#'
}

/// The length of the leading token of `line`: the number of characters
/// before the first one that ends a token, or before the end of the line.
pub open spec fn token_len(line: Seq<char>) -> nat
    decreases line.len(),
{
    if line.len() == 0 || is_token_end(line[0]) {
        0
    } else {
        1 + token_len(line.drop_first())
    }
}

/// The leading token of `line`.
pub open spec fn leading_token(line: Seq<char>) -> Seq<char> {
    line.subrange(0, token_len(line) as int)
}

/// Whether `line` is flagged: its leading token is neither empty nor the
/// keyword.
pub open spec fn is_flagged(line: Seq<char>) -> bool {
    token_len(line) > 0 && leading_token(line) != keyword()
}

/// The column at which the range of a diagnostic ends: one less than the
/// length of the token in bytes of UTF-8, and zero for an empty token.
pub open spec fn end_character(token: Seq<char>) -> nat {
    if encode_utf8(token).len() == 0 {
        0
    } else {
        (encode_utf8(token).len() - 1) as nat
    }
}

/// The diagnostic for the flagged line `line`, which is line `number` of
/// its document.
pub open spec fn line_diagnostic(line: Seq<char>, number: nat) -> DiagnosticView {
    DiagnosticView {
        range: Range {
            start: Position { line: number as usize, character: 0 },
            end: Position {
                line: number as usize,
                character: end_character(leading_token(line)) as usize,
            },
        },
        severity: Severity::Error,
        source: diagnostic_source(),
        message: diagnostic_message(),
    }
}

/// The diagnostics of the lines of `text` from line `from` to the last, in
/// line order.
pub open spec fn scan_from(text: Seq<char>, from: nat) -> Seq<DiagnosticView>
    decreases line_count(text) - from,
{
    if from >= line_count(text) {
        Seq::empty()
    } else if is_flagged(line_text(text, from)) {
        seq![line_diagnostic(line_text(text, from), from)] + scan_from(text, from + 1)
    } else {
        scan_from(text, from + 1)
    }
}

/// The diagnostics of a document with the text `text` and the asserts
/// offset `asserts`: those of the lines after the marker line, and none
/// where there is no marker line.
pub open spec fn diagnostics_of(text: Seq<char>, asserts: Option<usize>) -> Seq<DiagnosticView> {
    match marker_line(text, asserts) {
        Some(marker) => scan_from(text, marker + 1),
        None => Seq::empty(),
    }
}

/// The length of a leading token is the one index before which no
/// character ends a token and at which one does, or the line ends.
pub proof fn lemma_token_len(line: Seq<char>, k: int)
    requires
        0 <= k <= line.len(),
        forall|j: int| 0 <= j < k ==> !is_token_end(#[trigger] line[j]),
        k == line.len() || is_token_end(line[k]),
    ensures
        token_len(line) == k,
    decreases k,
{
    if k > 0 {
        let rest = line.drop_first();
        assert forall|j: int| 0 <= j < k - 1 implies !is_token_end(#[trigger] rest[j]) by {
            assert(rest[j] == line[j + 1]);
        }
        lemma_token_len(rest, k - 1);
    }
}

/// Every diagnostic is that of a flagged line at or after line `from`.
pub proof fn lemma_diagnostic_is_flagged_line(text: Seq<char>, from: nat, i: int)
    requires
        0 <= i < scan_from(text, from).len(),
    ensures
        exists|line: nat|
            from <= line < line_count(text) && is_flagged(line_text(text, line)) && scan_from(
                text,
                from,
            )[i] == #[trigger] line_diagnostic(line_text(text, line), line),
    decreases line_count(text) - from,
{
    if from < line_count(text) {
        if is_flagged(line_text(text, from)) && i == 0 {
            assert(scan_from(text, from)[0] == line_diagnostic(line_text(text, from), from));
        } else {
            let k = if is_flagged(line_text(text, from)) {
                i - 1
            } else {
                i
            };
            lemma_diagnostic_is_flagged_line(text, from + 1, k);
            let tail = scan_from(text, from + 1);
            let line = choose|line: nat|
                from + 1 <= line < line_count(text) && is_flagged(line_text(text, line)) && tail[k]
                    == #[trigger] line_diagnostic(line_text(text, line), line);
            assert(scan_from(text, from)[i] == line_diagnostic(line_text(text, line), line));
        }
    }
}

/// Every flagged line at or after line `from` has its diagnostic.
pub proof fn lemma_flagged_line_is_reported(text: Seq<char>, from: nat, line: nat)
    requires
        from <= line < line_count(text),
        is_flagged(line_text(text, line)),
    ensures
        scan_from(text, from).contains(line_diagnostic(line_text(text, line), line)),
    decreases line - from,
{
    let wanted = line_diagnostic(line_text(text, line), line);
    if from == line {
        assert(scan_from(text, from)[0] == wanted);
    } else {
        lemma_flagged_line_is_reported(text, from + 1, line);
        let tail = scan_from(text, from + 1);
        let k = choose|k: int| 0 <= k < tail.len() && #[trigger] tail[k] == wanted;
        if is_flagged(line_text(text, from)) {
            assert(scan_from(text, from)[k + 1] == wanted);
        } else {
            assert(scan_from(text, from)[k] == wanted);
        }
    }
}

/// Diagnostics come in line order: a later one is for a later line.
pub proof fn lemma_diagnostics_in_line_order(text: Seq<char>, from: nat, i: int, j: int)
    requires
        line_count(text) <= usize::MAX,
        0 <= i < j < scan_from(text, from).len(),
    ensures
        scan_from(text, from)[i].range.start.line < scan_from(text, from)[j].range.start.line,
    decreases line_count(text) - from,
{
    if from < line_count(text) {
        if is_flagged(line_text(text, from)) {
            if i == 0 {
                lemma_diagnostic_is_flagged_line(text, from + 1, j - 1);
            } else {
                lemma_diagnostics_in_line_order(text, from + 1, i - 1, j - 1);
            }
        } else {
            lemma_diagnostics_in_line_order(text, from + 1, i, j);
        }
    }
}

/// A document without the asserts marker has no diagnostics.
pub proof fn lemma_no_marker_no_diagnostics(text: Seq<char>)
    requires
        crate::sections::asserts_offset(text) is None,
    ensures
        diagnostics_of(text, crate::sections::asserts_offset(text)) == Seq::<
            DiagnosticView,
        >::empty(),
{
}

/// Measures the leading token of `line`.
pub fn leading_token_len(line: &[char]) -> (len: usize)
    ensures
        len == token_len(line@),
        len <= line@.len(),
        forall|j: int| 0 <= j < len ==> !is_token_end(#[trigger] line@[j]),
        len == line@.len() || is_token_end(line@[len as int]),
{
    let mut len: usize = 0;
    while len < line.len() && !(line[len] == ' ' || line[len] == '\n' || line[len] == '#')
        invariant
            len <= line@.len(),
            forall|j: int| 0 <= j < len ==> !is_token_end(#[trigger] line@[j]),
        decreases line@.len() - len,
    {
        len = len + 1;
    }
    proof {
        lemma_token_len(line@, len as int);
    }
    len
}

/// Whether the first `len` characters of `line` spell the keyword.
pub fn is_keyword(line: &[char], len: usize) -> (yes: bool)
    requires
        len <= line@.len(),
    ensures
        yes == (line@.subrange(0, len as int) == keyword()),
{
    let word: [char; 8] = ['j', 's', 'o', 'n', 'p', 'a', 't', 'h'];
    assert(word@ =~= keyword());
    if len != 8 {
        return false;
    }
    let mut i: usize = 0;
    while i < 8
        invariant
            i <= 8,
            len == 8,
            len <= line@.len(),
            word@ == keyword(),
            forall|j: int| 0 <= j < i ==> line@[j] == #[trigger] word@[j],
        decreases 8 - i,
    {
        if line[i] != word[i] {
            assert(line@.subrange(0, len as int)[i as int] != keyword()[i as int]);
            return false;
        }
        i = i + 1;
    }
    assert(line@.subrange(0, len as int) =~= keyword());
    true
}

/// The diagnostic for `line`, which is line `number` of its document, where
/// the line is flagged.
pub fn scan_line(line: &str, number: usize) -> (diagnostic: Option<Diagnostic>)
    ensures
        match diagnostic {
            Some(d) => is_flagged(line@) && d@ == line_diagnostic(line@, number as nat),
            None => !is_flagged(line@),
        },
{
    let chars = chars_of(line);
    let len = leading_token_len(chars.as_slice());
    if len == 0 || is_keyword(chars.as_slice(), len) {
        return None;
    }
    let token = line.substring_char(0, len);
    let width = token.as_bytes().len();
    assert(token@ == leading_token(line@));
    let end: usize = if width == 0 {
        0
    } else {
        width - 1
    };
    proof {
        reveal_strlit("LSP");
        reveal_strlit("Invalid assert");
    }
    let source = "LSP".to_owned();
    let message = "Invalid assert".to_owned();
    assert(source@ =~= diagnostic_source());
    assert(message@ =~= diagnostic_message());
    Some(
        Diagnostic {
            range: Range {
                start: Position { line: number, character: 0 },
                end: Position { line: number, character: end },
            },
            severity: Severity::Error,
            source,
            message,
        },
    )
}

/// Scans the asserts section of a document: one diagnostic for each
/// flagged line after the marker line, in line order, to the end of the
/// document. A document without an asserts section has no diagnostics.
/// The same text and offset always give the same diagnostics.
pub fn scan(content: &Rope, positions: &HurlSectionPositions) -> (diagnostics: Vec<Diagnostic>)
    ensures
        views(diagnostics@) == diagnostics_of(rope_text(*content), positions.asserts),
{
    let ghost text = rope_text(*content);
    let mut diagnostics: Vec<Diagnostic> = Vec::new();
    let marker = match positions.asserts_line(content) {
        Some(marker) => marker,
        None => {
            assert(views(diagnostics@) =~= Seq::empty());
            return diagnostics;
        },
    };
    let lines = rope_len_lines(content);
    let mut number: usize = marker + 1;
    assert(views(diagnostics@) =~= Seq::empty());
    while number < lines
        invariant
            text == rope_text(*content),
            lines == line_count(text),
            marker + 1 <= number <= lines,
            views(diagnostics@) + scan_from(text, number as nat) == scan_from(
                text,
                (marker + 1) as nat,
            ),
        decreases lines - number,
    {
        let line = rope_line(content, number);
        let ghost before = diagnostics@;
        match scan_line(line.as_str(), number) {
            Some(diagnostic) => {
                diagnostics.push(diagnostic);
                assert(views(diagnostics@) =~= views(before) + seq![diagnostic@]);
                assert(views(diagnostics@) + scan_from(text, (number + 1) as nat) =~= views(before)
                    + scan_from(text, number as nat));
            },
            None => {},
        }
        number = number + 1;
    }
    assert(views(diagnostics@) + scan_from(text, number as nat) =~= views(diagnostics@));
    diagnostics
}

} // verus!

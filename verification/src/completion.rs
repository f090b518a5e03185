//! Completions for the asserts section.

use crate::documentation::{documentation_of, Documentation};
use crate::sections::{asserts_offset, marker_line, HurlSectionPositions};
use crate::text::rope_text;
use ropey::Rope;
use vstd::prelude::*;

verus! {

/// One completion: the text to insert, and long documentation where there
/// is any.
#[derive(Debug, Clone, PartialEq, Eq)]
pub struct CompletionEntry {
    pub label: String,
    pub documentation: Option<String>,
}

/// A completion as a mathematical value.
pub ghost struct CompletionView {
    pub label: Seq<char>,
    pub documentation: Option<Seq<char>>,
}

impl View for CompletionEntry {
    type V = CompletionView;

    open spec fn view(&self) -> CompletionView {
        CompletionView {
            label: self.label@,
            documentation: match self.documentation {
                Some(text) => Some(text@),
                None => None,
            },
        }
    }
}

/// The views of a sequence of completions, in the same order.
pub open spec fn entry_views(entries: Seq<CompletionEntry>) -> Seq<CompletionView> {
    entries.map_values(|e: CompletionEntry| e@)
}

/// The query types that can start a line of the asserts section.
pub open spec fn vocabulary() -> Seq<Seq<char>> {
    seq![
        "jsonpath"@,
        "status"@,
        "url"@,
        "header"@,
        "cookie"@,
        "body"@,
        "xpath"@,
        "regex"@,
        "variable"@,
        "duration"@,
        "sha256"@,
        "md5"@,
        "bytes"@,
    ]
}

/// The completion for entry `i` of the vocabulary. Only the first,
/// `jsonpath`, carries documentation: what the table holds for it.
pub open spec fn static_completion(docs: Seq<crate::documentation::DocEntry>, i: int) -> CompletionView {
    CompletionView {
        label: vocabulary()[i],
        documentation: if i == 0 {
            Some(documentation_of(docs, vocabulary()[0]))
        } else {
            None
        },
    }
}

/// The fixed list of completions: one for each entry of the vocabulary, in
/// its order.
pub open spec fn static_completions(docs: Seq<crate::documentation::DocEntry>) -> Seq<CompletionView> {
    Seq::new(vocabulary().len(), |i: int| static_completion(docs, i))
}

/// Whether completions are offered at line `line`: the document is there,
/// it has an asserts section, and the line comes after the marker line.
pub open spec fn completes_at(text: Option<Seq<char>>, asserts: Option<usize>, line: nat) -> bool {
    match text {
        Some(text) => match marker_line(text, asserts) {
            Some(marker) => marker < line,
            None => false,
        },
        None => false,
    }
}

/// A completion without documentation.
fn plain(label: &str) -> (entry: CompletionEntry)
    ensures
        entry@ == (CompletionView { label: label@, documentation: None }),
{
    CompletionEntry { label: label.to_owned(), documentation: None }
}

/// Builds the fixed list of completions.
pub fn get_static_completions(docs: &Documentation) -> (items: Vec<CompletionEntry>)
    ensures
        entry_views(items@) == static_completions(docs.entries@),
{
    let mut items: Vec<CompletionEntry> = Vec::new();
    items.push(
        CompletionEntry {
            label: "jsonpath".to_owned(),
            documentation: Some(docs.lookup("jsonpath")),
        },
    );
    items.push(plain("status"));
    items.push(plain("url"));
    items.push(plain("header"));
    items.push(plain("cookie"));
    items.push(plain("body"));
    items.push(plain("xpath"));
    items.push(plain("regex"));
    items.push(plain("variable"));
    items.push(plain("duration"));
    items.push(plain("sha256"));
    items.push(plain("md5"));
    items.push(plain("bytes"));
    assert(entry_views(items@) =~= static_completions(docs.entries@));
    items
}

/// A document without an asserts section is offered no completion, on
/// whatever line the cursor stands; nor is a document that is not there.
pub proof fn lemma_no_section_no_completions(text: Seq<char>, line: nat)
    ensures
        !completes_at(Some(text), None, line),
        asserts_offset(text) is None ==> !completes_at(Some(text), asserts_offset(text), line),
        !completes_at(None, asserts_offset(text), line),
{
}

/// Answers a completion request at line `line`: the fixed list where the
/// line comes after the marker line of the asserts section, and the empty
/// list everywhere else, as for a document that is not there or has no
/// asserts section.
pub fn completions(
    content: Option<&Rope>,
    positions: Option<&HurlSectionPositions>,
    line: usize,
    docs: &Documentation,
) -> (items: Vec<CompletionEntry>)
    ensures
        entry_views(items@) == if completes_at(
            match content {
                Some(rope) => Some(rope_text(*rope)),
                None => None,
            },
            match positions {
                Some(p) => p.asserts,
                None => None,
            },
            line as nat,
        ) {
            static_completions(docs.entries@)
        } else {
            Seq::empty()
        },
{
    let offered = match content {
        Some(rope) => match positions {
            Some(p) => match p.asserts_line(rope) {
                Some(marker) => marker < line,
                None => false,
            },
            None => false,
        },
        None => false,
    };
    if offered {
        get_static_completions(docs)
    } else {
        let items: Vec<CompletionEntry> = Vec::new();
        assert(entry_views(items@) =~= Seq::empty());
        items
    }
}

} // verus!

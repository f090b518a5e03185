//! The parameters of the requests that are answered, as plain values.

use crate::json::{json_view, Json};
use lsp_types::CompletionItem;
use serde_json::Value;
use vstd::prelude::*;

verus! {

/// `lsp_types::CompletionItem`: a completion item as the editor sends it
/// back to be resolved. It is carried through unread.
#[verifier::external_type_specification]
#[verifier::external_body]
pub struct ExCompletionItem(CompletionItem);

/// A document that was opened: its identifier and its text.
#[derive(Debug, Clone, PartialEq, Eq)]
pub struct OpenedDocument {
    pub uri: String,
    pub text: String,
}

/// A document that was changed: its identifier, its new version, and the
/// text of each change in the order given. Each change holds the whole
/// document.
#[derive(Debug, Clone, PartialEq, Eq)]
pub struct ChangedDocument {
    pub uri: String,
    pub version: i32,
    pub changes: Vec<String>,
}

/// A place in a document that a request asks about.
#[derive(Debug, Clone, PartialEq, Eq)]
pub struct Cursor {
    pub uri: String,
    pub line: u32,
    pub character: u32,
}

/// An opened document as a mathematical value.
pub ghost struct OpenedView {
    pub uri: Seq<char>,
    pub text: Seq<char>,
}

/// A changed document as a mathematical value.
pub ghost struct ChangedView {
    pub uri: Seq<char>,
    pub version: i32,
    pub changes: Seq<Seq<char>>,
}

/// A cursor as a mathematical value.
pub ghost struct CursorView {
    pub uri: Seq<char>,
    pub line: u32,
    pub character: u32,
}

impl View for OpenedDocument {
    type V = OpenedView;

    open spec fn view(&self) -> OpenedView {
        OpenedView { uri: self.uri@, text: self.text@ }
    }
}

impl View for ChangedDocument {
    type V = ChangedView;

    open spec fn view(&self) -> ChangedView {
        ChangedView {
            uri: self.uri@,
            version: self.version,
            changes: self.changes@.map_values(|text: String| text@),
        }
    }
}

impl View for Cursor {
    type V = CursorView;

    open spec fn view(&self) -> CursorView {
        CursorView { uri: self.uri@, line: self.line, character: self.character }
    }
}

/// What the parameters of a document-open notification hold, where they
/// have the shape of one.
pub uninterp spec fn did_open_params(params: Json) -> Option<OpenedView>;

/// What the parameters of a document-change notification hold, where they
/// have the shape of one.
pub uninterp spec fn did_change_params(params: Json) -> Option<ChangedView>;

/// What the parameters of a completion request hold, where they have the
/// shape of one.
pub uninterp spec fn completion_params(params: Json) -> Option<CursorView>;

/// What the parameters of a hover request hold, where they have the shape
/// of one.
pub uninterp spec fn hover_params(params: Json) -> Option<CursorView>;

/// The completion item that the parameters of a resolve request write,
/// where they write one.
pub uninterp spec fn completion_item_params(params: Json) -> Option<CompletionItem>;

/// Calls `serde_json::from_value` for `lsp_types::DidOpenTextDocumentParams`
/// and picks the document's identifier and text. The result is a function
/// of the parameters alone.
#[verifier::external_body]
pub(crate) fn parse_did_open(params: &Value) -> (parsed: Option<OpenedDocument>)
    ensures
        match parsed {
            Some(opened) => did_open_params(json_view(*params)) == Some(opened@),
            None => did_open_params(json_view(*params)) is None,
        },
{
    let parsed: Result<lsp_types::DidOpenTextDocumentParams, _> = serde_json::from_value(
        params.clone(),
    );
    parsed.ok().map(
        |p| OpenedDocument { uri: p.text_document.uri.to_string(), text: p.text_document.text },
    )
}

/// Calls `serde_json::from_value` for
/// `lsp_types::DidChangeTextDocumentParams` and picks the document's
/// identifier and version and the text of each change. The result is a
/// function of the parameters alone.
#[verifier::external_body]
pub(crate) fn parse_did_change(params: &Value) -> (parsed: Option<ChangedDocument>)
    ensures
        match parsed {
            Some(changed) => did_change_params(json_view(*params)) == Some(changed@),
            None => did_change_params(json_view(*params)) is None,
        },
{
    let parsed: Result<lsp_types::DidChangeTextDocumentParams, _> = serde_json::from_value(
        params.clone(),
    );
    parsed.ok().map(
        |p| ChangedDocument {
            uri: p.text_document.uri.to_string(),
            version: p.text_document.version,
            changes: p.content_changes.into_iter().map(|change| change.text).collect(),
        },
    )
}

/// Calls `serde_json::from_value` for `lsp_types::CompletionParams` and
/// picks the document's identifier and the position. The result is a
/// function of the parameters alone.
#[verifier::external_body]
pub(crate) fn parse_completion(params: &Value) -> (parsed: Option<Cursor>)
    ensures
        match parsed {
            Some(cursor) => completion_params(json_view(*params)) == Some(cursor@),
            None => completion_params(json_view(*params)) is None,
        },
{
    let parsed: Result<lsp_types::CompletionParams, _> = serde_json::from_value(params.clone());
    parsed.ok().map(
        |p| Cursor {
            uri: p.text_document_position.text_document.uri.to_string(),
            line: p.text_document_position.position.line,
            character: p.text_document_position.position.character,
        },
    )
}

/// Calls `serde_json::from_value` for `lsp_types::HoverParams` and picks
/// the document's identifier and the position. The result is a function of
/// the parameters alone.
#[verifier::external_body]
pub(crate) fn parse_hover(params: &Value) -> (parsed: Option<Cursor>)
    ensures
        match parsed {
            Some(cursor) => hover_params(json_view(*params)) == Some(cursor@),
            None => hover_params(json_view(*params)) is None,
        },
{
    let parsed: Result<lsp_types::HoverParams, _> = serde_json::from_value(params.clone());
    parsed.ok().map(
        |p| Cursor {
            uri: p.text_document_position_params.text_document.uri.to_string(),
            line: p.text_document_position_params.position.line,
            character: p.text_document_position_params.position.character,
        },
    )
}

/// Calls `serde_json::from_value` for `lsp_types::CompletionItem`. The
/// result is a function of the parameters alone.
#[verifier::external_body]
pub(crate) fn parse_completion_item(params: &Value) -> (parsed: Option<CompletionItem>)
    ensures
        parsed == completion_item_params(json_view(*params)),
{
    serde_json::from_value(params.clone()).ok()
}

} // verus!

//! Routing a decoded message to what answers it.
//!
//! A message is first read as a request: its method picks the shape that
//! its parameters must have. The request is then carried out on the
//! document tables, and what is to be sent back, if anything, is returned.

use crate::bytes::str_eq;
use crate::completion::{completes_at, completions, entry_views, static_completions, CompletionEntry};
use crate::decimal::{parse_i64, parse_integer};
use crate::diagnostics::{diagnostics_of, scan, views, Diagnostic, Position, Range};
use crate::documentation::{documentation_of, Documentation};
use crate::hover::{hover, line_or_empty, word_at, word_end, word_start, Hover};
use crate::json::{integer_of, json_view, member, string_of, value_as_i64, value_as_str, value_get, Json};
use crate::models::{protocol_version, Id, Notification, ResponseMessage};
use crate::protocol::{
    completion_item_params, completion_params, did_change_params, did_open_params, hover_params,
    parse_completion, parse_completion_item, parse_did_change, parse_did_open, parse_hover,
    ChangedDocument, ChangedView, Cursor, CursorView, OpenedDocument, OpenedView,
};
use crate::sections::{asserts_offset, section_positions, HurlSectionPositions};
use crate::store::Store;
use crate::text::{rope_from_str, rope_text};
use lsp_types::CompletionItem;
use ropey::Rope;
use serde_json::Value;
use vstd::prelude::*;
use vstd::utf8::encode_utf8;

verus! {

/// The methods that are handled, and one for all the others.
#[derive(Debug, Clone, Copy, PartialEq, Eq, Structural)]
pub enum Method {
    Initialize,
    Initialized,
    DidChange,
    DidOpen,
    Completion,
    ResolveCompletion,
    Hover,
    Unrecognized,
}

/// Why nothing is sent back for a message.
#[derive(Debug, Clone, Copy, PartialEq, Eq, Structural)]
pub enum Silence {
    /// The message names no method.
    NoMethod,
    /// The message was carried out and asks for no answer.
    Done,
    /// The message has no parameters.
    NoParams,
    /// The parameters do not have the shape that the method asks for.
    BadParams,
    /// The change holds no content.
    NoContent,
    /// The method is not one of those handled.
    Unimplemented,
}

/// What the server says of itself when the session starts.
#[derive(Debug, Clone, PartialEq, Eq)]
pub struct ServerDescription {
    pub name: String,
    pub version: String,
    /// Hover is answered.
    pub hover: bool,
    /// Completion is answered, and completion items are resolved.
    pub completion_resolve: bool,
    /// Opening and closing of documents is to be notified.
    pub open_close: bool,
    /// Each change is to carry the whole document.
    pub full_sync: bool,
}

/// The result that a response carries.
#[derive(Debug, PartialEq)]
pub enum ResponseBody {
    Initialize(ServerDescription),
    Completion(Vec<CompletionEntry>),
    Resolved(CompletionItem),
    Hover(Hover),
}

/// The diagnostics of one version of a document.
#[derive(Debug, Clone, PartialEq, Eq)]
pub struct PublishedDiagnostics {
    pub uri: String,
    pub diagnostics: Vec<Diagnostic>,
    pub version: i32,
}

/// What is to be sent back for a message.
#[derive(Debug, PartialEq)]
pub enum Outgoing {
    Nothing(Silence),
    Response(ResponseMessage<ResponseBody>),
    Notification(Notification<PublishedDiagnostics>),
}

/// A message read as a request.
#[derive(Debug, PartialEq)]
pub enum Request {
    Skip(Silence),
    Initialize,
    DidOpen(OpenedDocument),
    DidChange(ChangedDocument),
    Completion(Cursor),
    ResolveCompletion(CompletionItem),
    Hover(Cursor),
}

/// A request as a mathematical value.
pub ghost enum RequestView {
    Skip(Silence),
    Initialize,
    DidOpen(OpenedView),
    DidChange(ChangedView),
    Completion(CursorView),
    ResolveCompletion(CompletionItem),
    Hover(CursorView),
}

impl View for Request {
    type V = RequestView;

    open spec fn view(&self) -> RequestView {
        match *self {
            Request::Skip(why) => RequestView::Skip(why),
            Request::Initialize => RequestView::Initialize,
            Request::DidOpen(opened) => RequestView::DidOpen(opened@),
            Request::DidChange(changed) => RequestView::DidChange(changed@),
            Request::Completion(cursor) => RequestView::Completion(cursor@),
            Request::ResolveCompletion(item) => RequestView::ResolveCompletion(item),
            Request::Hover(cursor) => RequestView::Hover(cursor@),
        }
    }
}

/// The method that a name stands for.
pub open spec fn method_of(name: Seq<char>) -> Method {
    if name == "initialize"@ {
        Method::Initialize
    } else if name == "initialized"@ {
        Method::Initialized
    } else if name == "textDocument/didChange"@ {
        Method::DidChange
    } else if name == "textDocument/didOpen"@ {
        Method::DidOpen
    } else if name == "textDocument/completion"@ {
        Method::Completion
    } else if name == "completionItem/resolve"@ {
        Method::ResolveCompletion
    } else if name == "textDocument/hover"@ {
        Method::Hover
    } else {
        Method::Unrecognized
    }
}

/// The identifier under which a message is answered: a number as it is, a
/// string as the integer it writes, and zero for anything else.
pub open spec fn response_id_of(msg: Json) -> i64 {
    match member(msg, "id"@) {
        Some(id) => match integer_of(id) {
            Some(number) => number,
            None => match string_of(id) {
                Some(text) => match parse_integer(encode_utf8(text)) {
                    Some(number) => number,
                    None => 0,
                },
                None => 0,
            },
        },
        None => 0,
    }
}

/// The request that the parameters `params` make under `method`.
pub open spec fn request_with(method: Method, params: Json) -> RequestView {
    match method {
        Method::DidOpen => match did_open_params(params) {
            Some(opened) => RequestView::DidOpen(opened),
            None => RequestView::Skip(Silence::BadParams),
        },
        Method::DidChange => match did_change_params(params) {
            Some(changed) => RequestView::DidChange(changed),
            None => RequestView::Skip(Silence::BadParams),
        },
        Method::Completion => match completion_params(params) {
            Some(cursor) => RequestView::Completion(cursor),
            None => RequestView::Skip(Silence::BadParams),
        },
        Method::ResolveCompletion => match completion_item_params(params) {
            Some(item) => RequestView::ResolveCompletion(item),
            None => RequestView::Skip(Silence::BadParams),
        },
        Method::Hover => match hover_params(params) {
            Some(cursor) => RequestView::Hover(cursor),
            None => RequestView::Skip(Silence::BadParams),
        },
        Method::Initialize => RequestView::Initialize,
        Method::Initialized => RequestView::Skip(Silence::Done),
        Method::Unrecognized => RequestView::Skip(Silence::Unimplemented),
    }
}

/// The request that a message makes. A message whose method is missing or
/// no string makes none. `initialize` and `initialized` need no
/// parameters; for every other method that is handled, missing parameters
/// and parameters of the wrong shape make no request either.
pub open spec fn request_of(msg: Json) -> RequestView {
    match member(msg, "method"@) {
        None => RequestView::Skip(Silence::NoMethod),
        Some(method) => match string_of(method) {
            None => RequestView::Skip(Silence::NoMethod),
            Some(name) => match method_of(name) {
                Method::Initialize => RequestView::Initialize,
                Method::Initialized => RequestView::Skip(Silence::Done),
                Method::Unrecognized => RequestView::Skip(Silence::Unimplemented),
                handled => match member(msg, "params"@) {
                    None => RequestView::Skip(Silence::NoParams),
                    Some(params) => request_with(handled, params),
                },
            },
        },
    }
}

/// Tells which method a name stands for.
pub fn method_named(name: &str) -> (method: Method)
    ensures
        method == method_of(name@),
{
    if str_eq(name, "initialize") {
        Method::Initialize
    } else if str_eq(name, "initialized") {
        Method::Initialized
    } else if str_eq(name, "textDocument/didChange") {
        Method::DidChange
    } else if str_eq(name, "textDocument/didOpen") {
        Method::DidOpen
    } else if str_eq(name, "textDocument/completion") {
        Method::Completion
    } else if str_eq(name, "completionItem/resolve") {
        Method::ResolveCompletion
    } else if str_eq(name, "textDocument/hover") {
        Method::Hover
    } else {
        Method::Unrecognized
    }
}

/// The identifier under which `msg` is answered.
pub fn response_id(msg: &Value) -> (id: i64)
    ensures
        id == response_id_of(json_view(*msg)),
{
    match value_get(msg, "id") {
        Some(id) => match value_as_i64(id) {
            Some(number) => number,
            None => match value_as_str(id) {
                Some(text) => match parse_i64(text.as_bytes()) {
                    Some(number) => number,
                    None => 0,
                },
                None => 0,
            },
        },
        None => 0,
    }
}

/// Reads the parameters `params` as the request that `method` asks for.
pub fn read_params(method: Method, params: &Value) -> (request: Request)
    ensures
        request@ == request_with(method, json_view(*params)),
{
    match method {
        Method::DidOpen => match parse_did_open(params) {
            Some(opened) => Request::DidOpen(opened),
            None => Request::Skip(Silence::BadParams),
        },
        Method::DidChange => match parse_did_change(params) {
            Some(changed) => Request::DidChange(changed),
            None => Request::Skip(Silence::BadParams),
        },
        Method::Completion => match parse_completion(params) {
            Some(cursor) => Request::Completion(cursor),
            None => Request::Skip(Silence::BadParams),
        },
        Method::ResolveCompletion => match parse_completion_item(params) {
            Some(item) => Request::ResolveCompletion(item),
            None => Request::Skip(Silence::BadParams),
        },
        Method::Hover => match parse_hover(params) {
            Some(cursor) => Request::Hover(cursor),
            None => Request::Skip(Silence::BadParams),
        },
        Method::Initialize => Request::Initialize,
        Method::Initialized => Request::Skip(Silence::Done),
        Method::Unrecognized => Request::Skip(Silence::Unimplemented),
    }
}

/// Reads a message as a request.
pub fn read_request(msg: &Value) -> (request: Request)
    ensures
        request@ == request_of(json_view(*msg)),
{
    let method = match value_get(msg, "method") {
        None => {
            return Request::Skip(Silence::NoMethod);
        },
        Some(method) => match value_as_str(method) {
            None => {
                return Request::Skip(Silence::NoMethod);
            },
            Some(name) => method_named(name),
        },
    };
    match method {
        Method::Initialize => Request::Initialize,
        Method::Initialized => Request::Skip(Silence::Done),
        Method::Unrecognized => Request::Skip(Silence::Unimplemented),
        handled => match value_get(msg, "params") {
            None => Request::Skip(Silence::NoParams),
            Some(params) => read_params(handled, params),
        },
    }
}

/// The name under which the server describes itself: `hurlsp`.
pub open spec fn server_name() -> Seq<char> {
    "hurlsp"@
}

/// The version that the server gives of itself: `0.0.1`.
pub open spec fn server_version() -> Seq<char> {
    "0.0.1"@
}

/// The method of the notification that carries diagnostics.
pub open spec fn publish_method() -> Seq<char> {
    "textDocument/publishDiagnostics"@
}

/// Whether `description` is the fixed description of this server: hover,
/// completion with resolve, and whole-document synchronization.
pub open spec fn describes_server(description: ServerDescription) -> bool {
    &&& description.name@ == server_name()
    &&& description.version@ == server_version()
    &&& description.hover
    &&& description.completion_resolve
    &&& description.open_close
    &&& description.full_sync
}

/// The text of each document of a table.
pub open spec fn texts(files: Map<Seq<char>, Rope>) -> Map<Seq<char>, Seq<char>> {
    files.map_values(|rope: Rope| rope_text(rope))
}

/// The text held for `uri`, if any.
pub open spec fn text_of(files: Map<Seq<char>, Rope>, uri: Seq<char>) -> Option<Seq<char>> {
    if files.contains_key(uri) {
        Some(rope_text(files[uri]))
    } else {
        None
    }
}

/// The asserts offset held for `uri`, if any.
pub open spec fn asserts_of(
    positions: Map<Seq<char>, HurlSectionPositions>,
    uri: Seq<char>,
) -> Option<usize> {
    if positions.contains_key(uri) {
        positions[uri].asserts
    } else {
        None
    }
}

/// The two tables are in step: they hold the same documents, and the
/// positions held for each are those of the text held for it.
pub open spec fn in_step(
    files: Map<Seq<char>, Rope>,
    positions: Map<Seq<char>, HurlSectionPositions>,
) -> bool {
    &&& files.dom() == positions.dom()
    &&& forall|uri: Seq<char>| #[trigger]
        files.contains_key(uri) ==> positions[uri] == section_positions(rope_text(files[uri]))
}

/// The tables after `text` has been stored for `uri`: both hold the new
/// document, and every other document is as it was.
pub open spec fn stored(
    files_before: Map<Seq<char>, Rope>,
    positions_before: Map<Seq<char>, HurlSectionPositions>,
    files_after: Map<Seq<char>, Rope>,
    positions_after: Map<Seq<char>, HurlSectionPositions>,
    uri: Seq<char>,
    text: Seq<char>,
) -> bool {
    &&& files_after.dom() == files_before.dom().insert(uri)
    &&& rope_text(files_after[uri]) == text
    &&& forall|other: Seq<char>| #[trigger]
        files_before.contains_key(other) && other != uri ==> files_after[other]
            == files_before[other]
    &&& positions_after == positions_before.insert(uri, section_positions(text))
}

/// Whether `response` answers `msg`: it carries the protocol version and
/// the identifier under which `msg` is answered.
pub open spec fn answers(response: ResponseMessage<ResponseBody>, msg: Json) -> bool {
    &&& response.message.jsonrpc@ == protocol_version()
    &&& response.id == Id::Number(response_id_of(msg))
}

/// What the server says of itself.
pub fn server_description() -> (description: ServerDescription)
    ensures
        describes_server(description),
{
    ServerDescription {
        name: "hurlsp".to_owned(),
        version: "0.0.1".to_owned(),
        hover: true,
        completion_resolve: true,
        open_close: true,
        full_sync: true,
    }
}

/// Stores `text` as the document `uri`, and its section positions with it,
/// so that the two tables never hold different revisions of a document.
pub fn store_document(
    files: &mut Store<Rope>,
    positions: &mut Store<HurlSectionPositions>,
    uri: &str,
    text: &str,
)
    requires
        old(files).wf(),
        old(positions).wf(),
    ensures
        final(files).wf(),
        final(positions).wf(),
        stored(old(files)@, old(positions)@, final(files)@, final(positions)@, uri@, text@),
        in_step(old(files)@, old(positions)@) ==> in_step(final(files)@, final(positions)@),
{
    let content = rope_from_str(text);
    let content_positions = HurlSectionPositions::from_str(text);
    files.put(uri.to_owned(), content);
    positions.put(uri.to_owned(), content_positions);
    proof {
        assert(final(files)@.dom() =~= old(files)@.dom().insert(uri@));
        if in_step(old(files)@, old(positions)@) {
            assert(files@.dom() =~= positions@.dom());
        }
    }
}

/// Responds to `msg` with `result`.
pub fn respond(msg: &Value, result: ResponseBody) -> (out: Outgoing)
    ensures
        out matches Outgoing::Response(response) && answers(response, json_view(*msg))
            && response.result == result,
{
    Outgoing::Response(ResponseMessage::new(response_id(msg), result))
}

/// Carries out the request that `msg` makes and returns what is to be sent
/// back.
///
/// Only opening and changing a document alter the tables, and they alter
/// both at once. A change stores the text of its last content change and
/// publishes the diagnostics of that text, also where there are none.
/// Requests are answered under the identifier of their message. A document
/// that is not there counts as empty.
pub fn handle(
    msg: &Value,
    files: &mut Store<Rope>,
    positions: &mut Store<HurlSectionPositions>,
    docs: &Documentation,
) -> (out: Outgoing)
    requires
        old(files).wf(),
        old(positions).wf(),
    ensures
        final(files).wf(),
        final(positions).wf(),
        in_step(old(files)@, old(positions)@) ==> in_step(final(files)@, final(positions)@),
        match request_of(json_view(*msg)) {
            RequestView::Skip(why) => {
                &&& out matches Outgoing::Nothing(w) && w == why
                &&& final(files)@ == old(files)@
                &&& final(positions)@ == old(positions)@
            },
            RequestView::Initialize => {
                &&& out matches Outgoing::Response(response) && answers(response, json_view(*msg))
                    && (response.result matches ResponseBody::Initialize(description)
                    && describes_server(description))
                &&& final(files)@ == old(files)@
                &&& final(positions)@ == old(positions)@
            },
            RequestView::DidOpen(opened) => {
                &&& out matches Outgoing::Nothing(w) && w == Silence::Done
                &&& stored(
                    old(files)@,
                    old(positions)@,
                    final(files)@,
                    final(positions)@,
                    opened.uri,
                    opened.text,
                )
            },
            RequestView::DidChange(changed) => if changed.changes.len() == 0 {
                &&& out matches Outgoing::Nothing(w) && w == Silence::NoContent
                &&& final(files)@ == old(files)@
                &&& final(positions)@ == old(positions)@
            } else {
                &&& stored(
                    old(files)@,
                    old(positions)@,
                    final(files)@,
                    final(positions)@,
                    changed.uri,
                    changed.changes.last(),
                )
                &&& out matches Outgoing::Notification(notification)
                    && notification.message.jsonrpc@ == protocol_version()
                    && notification.method@ == publish_method()
                    && notification.params.uri@ == changed.uri
                    && notification.params.version == changed.version
                    && views(notification.params.diagnostics@) == diagnostics_of(
                    changed.changes.last(),
                    asserts_offset(changed.changes.last()),
                )
            },
            RequestView::Completion(cursor) => {
                &&& out matches Outgoing::Response(response) && answers(response, json_view(*msg))
                    && (response.result matches ResponseBody::Completion(items) && entry_views(
                    items@,
                ) == if completes_at(
                    text_of(old(files)@, cursor.uri),
                    asserts_of(old(positions)@, cursor.uri),
                    cursor.line as nat,
                ) {
                    static_completions(docs.entries@)
                } else {
                    Seq::empty()
                })
                &&& final(files)@ == old(files)@
                &&& final(positions)@ == old(positions)@
            },
            RequestView::ResolveCompletion(item) => {
                &&& out matches Outgoing::Response(response) && answers(response, json_view(*msg))
                    && (response.result matches ResponseBody::Resolved(echoed) && echoed == item)
                &&& final(files)@ == old(files)@
                &&& final(positions)@ == old(positions)@
            },
            RequestView::Hover(cursor) => {
                let line = match text_of(old(files)@, cursor.uri) {
                    Some(text) => line_or_empty(text, cursor.line as nat),
                    None => Seq::<char>::empty(),
                };
                &&& out matches Outgoing::Response(response) && answers(response, json_view(*msg))
                    && (response.result matches ResponseBody::Hover(shown) && shown.contents@
                    == documentation_of(docs.entries@, word_at(line, cursor.character as int))
                    && shown.range == (Range {
                    start: Position {
                        line: cursor.line as usize,
                        character: word_start(line, cursor.character as int) as usize,
                    },
                    end: Position {
                        line: cursor.line as usize,
                        character: word_end(line, cursor.character as int) as usize,
                    },
                }))
                &&& final(files)@ == old(files)@
                &&& final(positions)@ == old(positions)@
            },
        },
{
    match read_request(msg) {
        Request::Skip(why) => Outgoing::Nothing(why),
        Request::Initialize => respond(msg, ResponseBody::Initialize(server_description())),
        Request::DidOpen(opened) => {
            store_document(files, positions, opened.uri.as_str(), opened.text.as_str());
            Outgoing::Nothing(Silence::Done)
        },
        Request::DidChange(changed) => {
            let count = changed.changes.len();
            if count == 0 {
                return Outgoing::Nothing(Silence::NoContent);
            }
            let text = changed.changes[count - 1].as_str();
            assert(text@ == changed@.changes.last());
            store_document(files, positions, changed.uri.as_str(), text);
            let diagnostics = match files.get(changed.uri.as_str()) {
                Some(content) => match positions.get(changed.uri.as_str()) {
                    Some(content_positions) => scan(content, content_positions),
                    None => Vec::new(),
                },
                None => Vec::new(),
            };
            Outgoing::Notification(
                Notification::new(
                    "textDocument/publishDiagnostics".to_owned(),
                    PublishedDiagnostics {
                        uri: changed.uri.clone(),
                        diagnostics,
                        version: changed.version,
                    },
                ),
            )
        },
        Request::Completion(cursor) => {
            let items = completions(
                files.get(cursor.uri.as_str()),
                positions.get(cursor.uri.as_str()),
                cursor.line as usize,
                docs,
            );
            respond(msg, ResponseBody::Completion(items))
        },
        Request::ResolveCompletion(item) => respond(msg, ResponseBody::Resolved(item)),
        Request::Hover(cursor) => {
            let shown = hover(
                files.get(cursor.uri.as_str()),
                cursor.line as usize,
                cursor.character as usize,
                docs,
            );
            respond(msg, ResponseBody::Hover(shown))
        },
    }
}

} // verus!

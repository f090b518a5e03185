use hurlsp::completion::get_static_completions;
use hurlsp::diagnostics::{Position, Severity};
use hurlsp::dispatch::{
    handle, method_named, read_params, read_request, respond, response_id, server_description,
    store_document, Method, Outgoing, Request, ResponseBody, Silence,
};
use hurlsp::documentation::{DocEntry, Documentation};
use hurlsp::models::{Id, Message, Notification, RequestMessage, ResponseMessage};
use hurlsp::sections::HurlSectionPositions;
use hurlsp::store::Store;
use ropey::Rope;
use serde_json::Value;

fn json(text: &str) -> Value {
    serde_json::from_str(text).unwrap()
}

fn docs() -> Documentation {
    Documentation {
        entries: vec![DocEntry { token: "status".to_string(), text: "The status code.".to_string() }],
    }
}

fn tables() -> (Store<Rope>, Store<HurlSectionPositions>) {
    (Store::new(), Store::new())
}

const DOCUMENT: &str = "GET http://x\\nHTTP 200\\n[Asserts]\\njsonpath \\\"$.ok\\\" == true\\nstatus == 200\\n";

fn did_open() -> Value {
    json(&format!(
        "{{\"method\":\"textDocument/didOpen\",\"params\":{{\"textDocument\":{{\"uri\":\"file:///a.hurl\",\"languageId\":\"hurl\",\"version\":1,\"text\":\"{}\"}}}}}}",
        DOCUMENT
    ))
}

fn did_change(text: &str) -> Value {
    json(&format!(
        "{{\"method\":\"textDocument/didChange\",\"params\":{{\"textDocument\":{{\"uri\":\"file:///a.hurl\",\"version\":4}},\"contentChanges\":[{{\"text\":\"old\"}},{{\"text\":\"{}\"}}]}}}}",
        text
    ))
}

fn request(method: &str, id: &str, line: u32, character: u32) -> Value {
    json(&format!(
        "{{\"id\":{},\"method\":\"{}\",\"params\":{{\"textDocument\":{{\"uri\":\"file:///a.hurl\"}},\"position\":{{\"line\":{},\"character\":{}}}}}}}",
        id, method, line, character
    ))
}

fn result_of(out: Outgoing, id: i64) -> ResponseBody {
    match out {
        Outgoing::Response(response) => {
            assert_eq!(response.message.jsonrpc, "2.0");
            assert_eq!(response.id, Id::Number(id));
            response.result
        }
        other => panic!("no response: {:?}", other),
    }
}

#[test]
fn method_named_knows_the_handled_methods() {
    assert_eq!(method_named("initialize"), Method::Initialize);
    assert_eq!(method_named("initialized"), Method::Initialized);
    assert_eq!(method_named("textDocument/didChange"), Method::DidChange);
    assert_eq!(method_named("textDocument/didOpen"), Method::DidOpen);
    assert_eq!(method_named("textDocument/completion"), Method::Completion);
    assert_eq!(method_named("completionItem/resolve"), Method::ResolveCompletion);
    assert_eq!(method_named("textDocument/hover"), Method::Hover);
    assert_eq!(method_named("textDocument/didClose"), Method::Unrecognized);
    assert_eq!(method_named("Initialize"), Method::Unrecognized);
    assert_eq!(method_named(""), Method::Unrecognized);
}

#[test]
fn response_id_passes_numbers_and_reads_strings() {
    assert_eq!(response_id(&json("{\"id\":7}")), 7);
    assert_eq!(response_id(&json("{\"id\":-3}")), -3);
    assert_eq!(response_id(&json("{\"id\":\"12\"}")), 12);
    assert_eq!(response_id(&json("{\"id\":\"-12\"}")), -12);
    assert_eq!(response_id(&json("{\"id\":\"+12\"}")), 12);
}

#[test]
fn response_id_defaults_to_zero() {
    assert_eq!(response_id(&json("{\"id\":\"abc\"}")), 0);
    assert_eq!(response_id(&json("{\"id\":\"\"}")), 0);
    assert_eq!(response_id(&json("{\"id\":\"99999999999999999999\"}")), 0);
    assert_eq!(response_id(&json("{\"id\":1.5}")), 0);
    assert_eq!(response_id(&json("{\"id\":18446744073709551615}")), 0);
    assert_eq!(response_id(&json("{\"id\":null}")), 0);
    assert_eq!(response_id(&json("{\"id\":[1]}")), 0);
    assert_eq!(response_id(&json("{}")), 0);
    assert_eq!(response_id(&json("[1]")), 0);
}

#[test]
fn read_request_skips_what_names_no_method() {
    assert_eq!(read_request(&json("{\"id\":1}")), Request::Skip(Silence::NoMethod));
    assert_eq!(read_request(&json("{\"method\":5}")), Request::Skip(Silence::NoMethod));
    assert_eq!(read_request(&json("[\"method\"]")), Request::Skip(Silence::NoMethod));
    assert_eq!(read_request(&json("null")), Request::Skip(Silence::NoMethod));
}

#[test]
fn read_request_needs_no_parameters_to_initialize() {
    assert_eq!(read_request(&json("{\"id\":1,\"method\":\"initialize\"}")), Request::Initialize);
    assert_eq!(read_request(&json("{\"method\":\"initialized\"}")), Request::Skip(Silence::Done));
    assert_eq!(
        read_request(&json("{\"method\":\"shutdown\",\"params\":{}}")),
        Request::Skip(Silence::Unimplemented)
    );
}

#[test]
fn read_request_checks_the_parameters() {
    for method in [
        "textDocument/didOpen",
        "textDocument/didChange",
        "textDocument/completion",
        "textDocument/hover",
        "completionItem/resolve",
    ] {
        assert_eq!(
            read_request(&json(&format!("{{\"id\":1,\"method\":\"{}\"}}", method))),
            Request::Skip(Silence::NoParams)
        );
        assert_eq!(
            read_request(&json(&format!("{{\"id\":1,\"method\":\"{}\",\"params\":{{\"x\":1}}}}", method))),
            Request::Skip(Silence::BadParams)
        );
    }
}

#[test]
fn read_request_rejects_an_identifier_that_is_no_url() {
    let msg = json("{\"method\":\"textDocument/didOpen\",\"params\":{\"textDocument\":{\"uri\":\"not a url\",\"languageId\":\"hurl\",\"version\":1,\"text\":\"\"}}}");
    assert_eq!(read_request(&msg), Request::Skip(Silence::BadParams));
}

#[test]
fn read_request_picks_the_plain_values() {
    match read_request(&did_open()) {
        Request::DidOpen(opened) => {
            assert_eq!(opened.uri, "file:///a.hurl");
            assert!(opened.text.starts_with("GET http://x\nHTTP 200\n[Asserts]\n"));
        }
        other => panic!("{:?}", other),
    }
    match read_request(&did_change("new")) {
        Request::DidChange(changed) => {
            assert_eq!(changed.uri, "file:///a.hurl");
            assert_eq!(changed.version, 4);
            assert_eq!(changed.changes, vec!["old".to_string(), "new".to_string()]);
        }
        other => panic!("{:?}", other),
    }
    match read_request(&request("textDocument/hover", "3", 8, 2)) {
        Request::Hover(cursor) => {
            assert_eq!((cursor.uri.as_str(), cursor.line, cursor.character), ("file:///a.hurl", 8, 2))
        }
        other => panic!("{:?}", other),
    }
    match read_request(&request("textDocument/completion", "3", 8, 2)) {
        Request::Completion(cursor) => {
            assert_eq!((cursor.uri.as_str(), cursor.line, cursor.character), ("file:///a.hurl", 8, 2))
        }
        other => panic!("{:?}", other),
    }
}

#[test]
fn read_params_reads_under_the_method_given() {
    let params = json("{\"textDocument\":{\"uri\":\"file:///a.hurl\"},\"position\":{\"line\":1,\"character\":2}}");
    assert!(matches!(read_params(Method::Hover, &params), Request::Hover(_)));
    assert!(matches!(read_params(Method::Completion, &params), Request::Completion(_)));
    assert_eq!(read_params(Method::DidOpen, &params), Request::Skip(Silence::BadParams));
    assert_eq!(read_params(Method::Initialize, &params), Request::Initialize);
    assert_eq!(read_params(Method::Unrecognized, &params), Request::Skip(Silence::Unimplemented));
}

#[test]
fn handle_describes_the_server() {
    let (mut files, mut positions) = tables();
    let out = handle(&json("{\"id\":1,\"method\":\"initialize\",\"params\":{}}"), &mut files, &mut positions, &docs());
    match result_of(out, 1) {
        ResponseBody::Initialize(description) => {
            assert_eq!(description, server_description());
            assert_eq!(description.name, "hurlsp");
            assert_eq!(description.version, "0.0.1");
            assert!(description.hover && description.completion_resolve);
            assert!(description.open_close && description.full_sync);
        }
        other => panic!("{:?}", other),
    }
    assert_eq!(files.len(), 0);
}

#[test]
fn handle_is_silent_where_nothing_is_asked() {
    let (mut files, mut positions) = tables();
    for (text, why) in [
        ("{\"id\":1}", Silence::NoMethod),
        ("{\"method\":\"initialized\",\"params\":{}}", Silence::Done),
        ("{\"id\":2,\"method\":\"textDocument/definition\",\"params\":{}}", Silence::Unimplemented),
        ("{\"id\":2,\"method\":\"textDocument/hover\"}", Silence::NoParams),
        ("{\"id\":2,\"method\":\"textDocument/hover\",\"params\":[]}", Silence::BadParams),
    ] {
        assert_eq!(handle(&json(text), &mut files, &mut positions, &docs()), Outgoing::Nothing(why));
    }
    assert_eq!(files.len(), 0);
    assert_eq!(positions.len(), 0);
}

#[test]
fn handle_stores_an_opened_document_with_its_positions() {
    let (mut files, mut positions) = tables();
    assert_eq!(handle(&did_open(), &mut files, &mut positions, &docs()), Outgoing::Nothing(Silence::Done));
    let text = files.get("file:///a.hurl").unwrap().to_string();
    assert_eq!(text, "GET http://x\nHTTP 200\n[Asserts]\njsonpath \"$.ok\" == true\nstatus == 200\n");
    assert_eq!(positions.get("file:///a.hurl"), Some(&HurlSectionPositions::from_str(&text)));
    assert_eq!(positions.get("file:///a.hurl").unwrap().asserts, Some(22));
}

#[test]
fn handle_publishes_the_diagnostics_of_a_change() {
    let (mut files, mut positions) = tables();
    handle(&did_open(), &mut files, &mut positions, &docs());
    match handle(&did_change(DOCUMENT), &mut files, &mut positions, &docs()) {
        Outgoing::Notification(notification) => {
            assert_eq!(notification.message.jsonrpc, "2.0");
            assert_eq!(notification.method, "textDocument/publishDiagnostics");
            assert_eq!(notification.params.uri, "file:///a.hurl");
            assert_eq!(notification.params.version, 4);
            assert_eq!(notification.params.diagnostics.len(), 1);
            let diagnostic = &notification.params.diagnostics[0];
            assert_eq!(diagnostic.range.start, Position { line: 4, character: 0 });
            assert_eq!(diagnostic.range.end, Position { line: 4, character: 5 });
            assert_eq!(diagnostic.severity, Severity::Error);
            assert_eq!(diagnostic.source, "LSP");
            assert_eq!(diagnostic.message, "Invalid assert");
        }
        other => panic!("{:?}", other),
    }
    assert_eq!(files.len(), 1);
}

#[test]
fn handle_takes_the_last_change_and_replaces_the_document() {
    let (mut files, mut positions) = tables();
    handle(&did_open(), &mut files, &mut positions, &docs());
    match handle(&did_change("GET http://y\\n"), &mut files, &mut positions, &docs()) {
        Outgoing::Notification(notification) => {
            assert_eq!(notification.params.diagnostics, vec![]);
            assert_eq!(notification.params.version, 4);
        }
        other => panic!("{:?}", other),
    }
    assert_eq!(files.get("file:///a.hurl").unwrap().to_string(), "GET http://y\n");
    assert_eq!(positions.get("file:///a.hurl").unwrap().asserts, None);
    assert_eq!(files.len(), 1);
    assert_eq!(positions.len(), 1);
}

#[test]
fn handle_ignores_a_change_without_content() {
    let (mut files, mut positions) = tables();
    handle(&did_open(), &mut files, &mut positions, &docs());
    let msg = json("{\"method\":\"textDocument/didChange\",\"params\":{\"textDocument\":{\"uri\":\"file:///a.hurl\",\"version\":4},\"contentChanges\":[]}}");
    assert_eq!(handle(&msg, &mut files, &mut positions, &docs()), Outgoing::Nothing(Silence::NoContent));
    assert_eq!(positions.get("file:///a.hurl").unwrap().asserts, Some(22));
}

#[test]
fn handle_completes_after_the_marker_line() {
    let (mut files, mut positions) = tables();
    handle(&did_open(), &mut files, &mut positions, &docs());
    let after = handle(&request("textDocument/completion", "5", 3, 0), &mut files, &mut positions, &docs());
    assert_eq!(result_of(after, 5), ResponseBody::Completion(get_static_completions(&docs())));
    for line in [0, 1, 2] {
        let before =
            handle(&request("textDocument/completion", "\"6\"", line, 0), &mut files, &mut positions, &docs());
        assert_eq!(result_of(before, 6), ResponseBody::Completion(vec![]));
    }
}

#[test]
fn handle_completes_nothing_for_a_document_that_is_not_there() {
    let (mut files, mut positions) = tables();
    let out = handle(&request("textDocument/completion", "\"x\"", 30, 0), &mut files, &mut positions, &docs());
    assert_eq!(result_of(out, 0), ResponseBody::Completion(vec![]));
}

#[test]
fn handle_hovers() {
    let (mut files, mut positions) = tables();
    handle(&did_open(), &mut files, &mut positions, &docs());
    let out = handle(&request("textDocument/hover", "8", 4, 2), &mut files, &mut positions, &docs());
    match result_of(out, 8) {
        ResponseBody::Hover(shown) => {
            assert_eq!(shown.contents, "The status code.");
            assert_eq!(shown.range.start, Position { line: 4, character: 0 });
            assert_eq!(shown.range.end, Position { line: 4, character: 6 });
        }
        other => panic!("{:?}", other),
    }
    let missing = json("{\"id\":9,\"method\":\"textDocument/hover\",\"params\":{\"textDocument\":{\"uri\":\"file:///b.hurl\"},\"position\":{\"line\":1,\"character\":3}}}");
    match result_of(handle(&missing, &mut files, &mut positions, &docs()), 9) {
        ResponseBody::Hover(shown) => {
            assert_eq!(shown.contents, "");
            assert_eq!(shown.range.start, Position { line: 1, character: 3 });
            assert_eq!(shown.range.end, Position { line: 1, character: 3 });
        }
        other => panic!("{:?}", other),
    }
}

#[test]
fn handle_echoes_a_completion_item() {
    let (mut files, mut positions) = tables();
    let msg = json("{\"id\":4,\"method\":\"completionItem/resolve\",\"params\":{\"label\":\"status\",\"kind\":1}}");
    match result_of(handle(&msg, &mut files, &mut positions, &docs()), 4) {
        ResponseBody::Resolved(item) => {
            assert_eq!(item.label, "status");
            assert_eq!(item.kind, Some(lsp_types::CompletionItemKind::TEXT));
        }
        other => panic!("{:?}", other),
    }
}

#[test]
fn respond_answers_under_the_identifier_of_the_message() {
    let out = respond(&json("{\"id\":\"41\"}"), ResponseBody::Completion(vec![]));
    assert_eq!(result_of(out, 41), ResponseBody::Completion(vec![]));
}

#[test]
fn store_document_keeps_both_tables_in_step() {
    let (mut files, mut positions) = tables();
    store_document(&mut files, &mut positions, "a", "x\n[Asserts]\n");
    store_document(&mut files, &mut positions, "b", "y");
    store_document(&mut files, &mut positions, "a", "zz\n[Asserts]\n");
    assert_eq!(files.len(), 2);
    assert_eq!(positions.len(), 2);
    assert_eq!(files.get("a").unwrap().to_string(), "zz\n[Asserts]\n");
    assert_eq!(positions.get("a").unwrap().asserts, Some(3));
    assert_eq!(files.get("b").unwrap().to_string(), "y");
    assert_eq!(positions.get("b").unwrap().asserts, None);
    assert!(files.get("c").is_none());
}

#[test]
fn store_replaces_and_keeps_the_others() {
    let mut store: Store<u32> = Store::new();
    assert_eq!(store.len(), 0);
    assert_eq!(store.get("a"), None);
    store.put("a".to_string(), 1);
    store.put("b".to_string(), 2);
    store.put("a".to_string(), 3);
    assert_eq!(store.len(), 2);
    assert_eq!(store.get("a"), Some(&3));
    assert_eq!(store.get("b"), Some(&2));
    assert_eq!(store.get(""), None);
    assert_eq!(store.get("ab"), None);
}

#[test]
fn response_new_carries_the_version_the_number_and_the_result() {
    let response = ResponseMessage::new(12, vec![1u8, 2]);
    assert_eq!(response.message, Message { jsonrpc: "2.0".to_string() });
    assert_eq!(response.id, Id::Number(12));
    assert_eq!(response.result, vec![1u8, 2]);
    assert_ne!(response.id, Id::String("12".to_string()));
}

#[test]
fn notification_new_carries_the_version_the_method_and_the_params() {
    let notification = Notification::new("textDocument/publishDiagnostics".to_string(), 5u8);
    assert_eq!(notification.message.jsonrpc, "2.0");
    assert_eq!(notification.method, "textDocument/publishDiagnostics");
    assert_eq!(notification.params, 5);
    assert_eq!(Message::current().jsonrpc, "2.0");
}

#[test]
fn request_message_holds_its_fields() {
    let request = RequestMessage {
        message: Message::current(),
        id: Id::String("a".to_string()),
        method: "initialize".to_string(),
    };
    assert_eq!(request.message.jsonrpc, "2.0");
    assert_eq!(request.id, Id::String("a".to_string()));
    assert_eq!(request.method, "initialize");
}

use serena::lsp_session::{
    acknowledges_request, lsp_error_message, needs_shutdown, parse_response_id, route_notification,
    LspSession, NotificationRoute, ReaderAction, ServerMessage,
};
use serena::symbol::{Position, Range, TextEdit};
use serena::tools::symbol_tools::{decimal_text, rename_changes};

#[test]
fn notifications_are_routed_by_method() {
    assert_eq!(route_notification("window/showMessage"), NotificationRoute::Log);
    assert_eq!(route_notification("window/logMessage"), NotificationRoute::Log);
    assert_eq!(route_notification("textDocument/publishDiagnostics"), NotificationRoute::Diagnostics);
    assert_eq!(route_notification("$/progress"), NotificationRoute::Ignore);
}

#[test]
fn only_some_server_requests_are_acknowledged() {
    assert!(acknowledges_request("window/showMessageRequest"));
    assert!(acknowledges_request("client/registerCapability"));
    assert!(!acknowledges_request("workspace/configuration"));
}

#[test]
fn response_ids_are_read_back() {
    assert_eq!(parse_response_id("17"), 17);
    assert_eq!(parse_response_id("+5"), 5);
    assert_eq!(parse_response_id("\"abc\""), 0);
    assert_eq!(parse_response_id("-3"), 0);
    assert_eq!(parse_response_id(""), 0);
    assert_eq!(parse_response_id("+"), 0);
    assert_eq!(parse_response_id("18446744073709551615"), u64::MAX);
    assert_eq!(parse_response_id("18446744073709551616"), 0);
    assert_eq!(parse_response_id(&decimal_text(2147483647)), 2147483647);
}

#[test]
fn error_responses_and_shutdown() {
    assert_eq!(lsp_error_message(-32601, "Method not found"), "LSP error (-32601): Method not found");
    assert!(needs_shutdown(true, false));
    assert!(!needs_shutdown(true, true));
    assert!(!needs_shutdown(false, false));
}

fn edit(text: &str) -> TextEdit {
    TextEdit { range: Range::new(Position::new(1, 2), Position::new(1, 5)), new_text: text.to_string() }
}

#[test]
fn rename_prefers_document_changes_and_skips_empty_documents() {
    let changes = rename_changes(
        vec![("file:///a.rs".to_string(), vec![edit("x")]), ("file:///b.rs".to_string(), vec![])],
        vec![("file:///c.rs".to_string(), vec![edit("y")])],
    );
    assert_eq!(changes.len(), 1);
    assert_eq!(changes.name_at(0), "file:///a.rs");
    assert_eq!(changes.get("file:///a.rs").unwrap()[0].new_text, "x");
    assert!(changes.get("file:///c.rs").is_none());
}

#[test]
fn rename_falls_back_to_the_change_map() {
    let changes = rename_changes(
        vec![("file:///b.rs".to_string(), vec![])],
        vec![("file:///c.rs".to_string(), vec![edit("y")])],
    );
    assert_eq!(changes.len(), 1);
    assert_eq!(changes.get("file:///c.rs").unwrap()[0].new_text, "y");
}

#[test]
fn response_reaches_its_waiter_once() {
    let mut session: LspSession<&str, Vec<String>> = LspSession::new();
    session.await_response(7, "waiter-7");
    session.await_response(8, "waiter-8");
    let first = session.step(ServerMessage::Response { id: "7".to_string() });
    assert!(matches!(first, ReaderAction::Deliver("waiter-7")));
    let again = session.step(ServerMessage::Response { id: "7".to_string() });
    assert!(matches!(again, ReaderAction::Unmatched(7)));
    let other = session.step(ServerMessage::Response { id: "8".to_string() });
    assert!(matches!(other, ReaderAction::Deliver("waiter-8")));
}

#[test]
fn forgotten_request_gets_no_response() {
    let mut session: LspSession<u32, Vec<String>> = LspSession::new();
    session.await_response(3, 30);
    session.forget(3);
    assert!(matches!(session.step(ServerMessage::Response { id: "3".to_string() }), ReaderAction::Unmatched(3)));
}

#[test]
fn published_diagnostics_replace_the_earlier_list() {
    let mut session: LspSession<u32, Vec<String>> = LspSession::new();
    let uri = "file:///a.rs".to_string();
    let a = session.step(ServerMessage::Notification {
        method: "textDocument/publishDiagnostics".to_string(),
        published: Some((uri.clone(), vec!["old".to_string(), "older".to_string()])),
    });
    assert!(matches!(a, ReaderAction::DiagnosticsKept));
    session.step(ServerMessage::Notification {
        method: "textDocument/publishDiagnostics".to_string(),
        published: Some((uri.clone(), vec!["new".to_string()])),
    });
    assert_eq!(session.diagnostics_for("file:///a.rs"), Some(&vec!["new".to_string()]));
    assert_eq!(session.diagnostics_for("file:///b.rs"), None);
    session.clear_diagnostics();
    assert_eq!(session.diagnostics_for("file:///a.rs"), None);
}

#[test]
fn other_messages_are_routed() {
    let mut session: LspSession<u32, Vec<String>> = LspSession::new();
    let log = session.step(ServerMessage::Notification { method: "window/logMessage".to_string(), published: None });
    assert!(matches!(log, ReaderAction::Log));
    let other = session.step(ServerMessage::Notification {
        method: "$/progress".to_string(),
        published: Some(("file:///a.rs".to_string(), vec![])),
    });
    assert!(matches!(other, ReaderAction::Trace));
    assert_eq!(session.diagnostics_for("file:///a.rs"), None);
    let unread = session.step(ServerMessage::Notification {
        method: "textDocument/publishDiagnostics".to_string(),
        published: None,
    });
    assert!(matches!(unread, ReaderAction::Nothing));
    let ack = session.step(ServerMessage::Request { method: "client/registerCapability".to_string() });
    assert!(matches!(ack, ReaderAction::Acknowledge));
    let unhandled = session.step(ServerMessage::Request { method: "workspace/configuration".to_string() });
    assert!(matches!(unhandled, ReaderAction::Unhandled));
    assert!(matches!(session.step(ServerMessage::Closed), ReaderAction::Stop));
}

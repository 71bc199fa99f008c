use serena::commands::{check_start, check_start_with, McpCommandError, SetupError};
use serena::context::AgentContext;
use serena::mode::AgentMode;
use serena::util::{normalize_line_endings, normalize_path};

#[test]
fn test_mcp_unsupported_transport() {
    let result = check_start(None, "http");
    assert!(result.is_err(), "http transport should be rejected");
    match result.unwrap_err() {
        McpCommandError::UnsupportedTransport(t) => {
            assert_eq!(t, "http");
        },
        other => panic!("expected UnsupportedTransport, got {other:?}"),
    }
}

#[test]
fn test_mcp_stdio_transport_accepted() {
    let result = check_start(None, "stdio");
    assert!(result.is_ok(), "stdio should be accepted");
}

#[test]
fn test_mcp_project_not_found() {
    let result = check_start(Some("/nonexistent/path"), "stdio");
    assert!(result.is_err(), "nonexistent project should error");
    match result.unwrap_err() {
        McpCommandError::ProjectNotFound(p) => {
            assert_eq!(p, "/nonexistent/path");
        },
        other => panic!("expected ProjectNotFound, got {other:?}"),
    }
}

#[test]
fn start_checks_decide_in_order() {
    assert_eq!(
        check_start_with(Some("/p"), "sse", true, false),
        Err(McpCommandError::NotADirectory("/p".to_string()))
    );
    assert_eq!(check_start_with(Some("/p"), "sse", true, true), Ok(()));
    assert_eq!(
        check_start_with(Some("/p"), "tcp", false, false),
        Err(McpCommandError::UnsupportedTransport("tcp".to_string()))
    );
}

#[test]
fn command_error_messages() {
    assert_eq!(
        McpCommandError::UnsupportedTransport("http".to_string()).message(),
        "unsupported transport: http (supported: stdio, sse)"
    );
    assert_eq!(McpCommandError::ProjectNotFound("/x".to_string()).message(), "project not found: /x");
    assert_eq!(SetupError::IoError("boom".to_string()).message(), "IO error: boom");
    assert_eq!(
        SetupError::NotAProject("/x".to_string()).message(),
        "not a valid project directory: /x"
    );
    assert_eq!(
        McpCommandError::NotADirectory("/f".to_string()).message(),
        "project path is not a directory: /f"
    );
}

#[test]
fn context_starts_in_code_mode() {
    let c = AgentContext::new();
    assert!(c.project.is_none());
    assert_eq!(c.mode, AgentMode::Code);
}

#[test]
fn normalisation_helpers() {
    assert_eq!(normalize_path("a\\b\\c"), "a/b/c");
    assert_eq!(normalize_path(&normalize_path("a\\b")), normalize_path("a\\b"));
    assert_eq!(normalize_line_endings("a\r\nb\r\n"), "a\nb\n");
    assert_eq!(normalize_line_endings("a\r\r\n"), "a\r\n");
    assert_eq!(normalize_line_endings("plain\ntext"), "plain\ntext");
}

//! Error hint mapping tests.

use pi::hints::{format_error_with_hints, hints_for_error, Error, IoErrorKind, JsonErrorKind};

#[test]
fn test_config_error_hints() {
    let error = Error::config("settings.json not found");
    let hint = hints_for_error(&error);
    assert!(hint.summary.contains("configuration"));
    assert!(!hint.hints.is_empty());
}

#[test]
fn test_auth_error_api_key_hints() {
    let error = Error::auth("API key not set");
    let hint = hints_for_error(&error);
    assert!(hint.summary.contains("API key"));
    assert!(hint.hints.iter().any(|h| h.contains("ANTHROPIC_API_KEY")));
}

#[test]
fn test_auth_error_401_hints() {
    let error = Error::auth("401 unauthorized");
    let hint = hints_for_error(&error);
    assert!(hint.summary.contains("invalid") || hint.summary.contains("expired"));
}

#[test]
fn test_provider_rate_limit_hints() {
    let error = Error::provider("anthropic", "429 rate limit exceeded");
    let hint = hints_for_error(&error);
    assert!(hint.summary.contains("Rate limit"));
    assert!(hint.hints.iter().any(|h| h.contains("Wait")));
}

#[test]
fn test_tool_read_not_found_hints() {
    let error = Error::tool("read", "file not found: /path/to/file");
    let hint = hints_for_error(&error);
    assert!(hint.summary.contains("not found"));
    assert!(hint.context_fields.contains(&"path"));
}

#[test]
fn test_tool_edit_ambiguous_hints() {
    let error = Error::tool("edit", "ambiguous match: found 3 occurrences");
    let hint = hints_for_error(&error);
    assert!(hint.summary.contains("Multiple"));
    assert!(hint.hints.iter().any(|h| h.contains("context")));
}

#[test]
fn test_tool_fd_not_found_hints() {
    let error = Error::tool("find", "fd command not found");
    let hint = hints_for_error(&error);
    assert!(hint.hints.iter().any(|h| h.contains("apt install")));
}

#[test]
fn test_session_not_found_hints() {
    let error = Error::SessionNotFound { path: "/path/to/session.jsonl".to_string() };
    let hint = hints_for_error(&error);
    assert!(hint.summary.contains("not found"));
    assert!(hint.hints.iter().any(|h| h.contains("--resume")));
}

#[test]
fn test_json_syntax_error_hints() {
    let error = Error::Json(JsonErrorKind::Syntax);
    let hint = hints_for_error(&error);
    assert!(hint.summary.contains("JSON") || hint.summary.contains("syntax"));
}

#[test]
fn test_aborted_has_no_hints() {
    let error = Error::Aborted;
    let hint = hints_for_error(&error);
    assert!(hint.hints.is_empty());
}

#[test]
fn test_format_error_with_hints() {
    let error = Error::auth("API key not set");
    let formatted = format_error_with_hints(&error);
    assert!(formatted.contains("Error:"));
    assert!(formatted.contains("Suggestions:"));
}

#[test]
fn test_extension_capability_denied_hints() {
    let error = Error::extension("capability network not allowed by policy");
    let hint = hints_for_error(&error);
    assert!(hint.summary.contains("capability") || hint.summary.contains("denied"));
}

#[test]
fn test_provider_timeout_hints() {
    let error = Error::provider("openai", "request timeout after 120s");
    let hint = hints_for_error(&error);
    assert!(hint.summary.contains("timed out") || hint.summary.contains("timeout"));
}

#[test]
fn test_provider_connection_hints() {
    let error = Error::provider("anthropic", "connection refused");
    let hint = hints_for_error(&error);
    assert!(hint.summary.contains("Network") || hint.summary.contains("connection"));
}

#[test]
fn test_io_permission_denied_hints() {
    let error = Error::Io(IoErrorKind::PermissionDenied);
    let hint = hints_for_error(&error);
    assert!(hint.summary.contains("Permission"));
}

#[test]
fn test_sqlite_locked_hints() {
    let error = Error::session("database locked");
    let hint = hints_for_error(&error);
    assert!(!hint.hints.is_empty());
}

#[test]
fn io_not_found_hints() {
    let error = Error::Io(IoErrorKind::NotFound);
    let hint = hints_for_error(&error);
    assert_eq!(hint.summary, "File or directory not found");
    assert_eq!(hint.context_fields, vec!["path"]);
}

#[test]
fn sqlite_corrupt_hints() {
    let error = Error::Sqlite("database disk image is corrupt".to_string());
    let hint = hints_for_error(&error);
    assert_eq!(hint.summary, "Database corrupted");
}

#[test]
fn validation_required_hints() {
    let error = Error::validation("field 'path' is required");
    let hint = hints_for_error(&error);
    assert_eq!(hint.summary, "Required field missing");
}

#[test]
fn api_401_hints() {
    let error = Error::Api("401 from endpoint".to_string());
    let hint = hints_for_error(&error);
    assert_eq!(hint.summary, "Unauthorized API request");
}

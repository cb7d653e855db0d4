//! Errors of the runtime and the remediation hints shown for them.
//!
//! Each error maps to a short summary, up to a few actionable hints, and the
//! context fields worth printing beside it. The mapping goes by the error's
//! variant and by markers inside its message, so hints stay stable for the
//! same failure however it was produced.

use vstd::prelude::*;
use crate::text::{spec_contains, str_contains_sub, str_eq};

verus! {

/// What an I/O failure was, as far as the hints care.
#[derive(Clone, Copy, Debug, PartialEq, Eq, Structural)]
pub enum IoErrorKind {
    NotFound,
    PermissionDenied,
    AlreadyExists,
    Other,
}

/// What a JSON failure was, as far as the hints care.
#[derive(Clone, Copy, Debug, PartialEq, Eq, Structural)]
pub enum JsonErrorKind {
    /// The text is not valid JSON.
    Syntax,
    /// The JSON is valid but does not fit the expected shape.
    Data,
    Other,
}

/// The runtime's error type.
#[derive(Debug)]
pub enum Error {
    Config(String),
    SessionNotFound { path: String },
    Session(String),
    Auth(String),
    Provider { provider: String, message: String },
    Tool { tool: String, message: String },
    Validation(String),
    Extension(String),
    Io(IoErrorKind),
    Json(JsonErrorKind),
    Sqlite(String),
    Aborted,
    Api(String),
}

impl Error {
    /// A configuration error.
    pub fn config(msg: &str) -> (r: Error)
        ensures
            r matches Error::Config(m) && m@ == msg@,
    {
        Error::Config(msg.to_owned())
    }

    /// A session error.
    pub fn session(msg: &str) -> (r: Error)
        ensures
            r matches Error::Session(m) && m@ == msg@,
    {
        Error::Session(msg.to_owned())
    }

    /// An authentication error.
    pub fn auth(msg: &str) -> (r: Error)
        ensures
            r matches Error::Auth(m) && m@ == msg@,
    {
        Error::Auth(msg.to_owned())
    }

    /// A provider error.
    pub fn provider(provider: &str, message: &str) -> (r: Error)
        ensures
            r matches Error::Provider { provider: p, message: m } && p@ == provider@ && m@
                == message@,
    {
        Error::Provider { provider: provider.to_owned(), message: message.to_owned() }
    }

    /// A tool error.
    pub fn tool(tool: &str, message: &str) -> (r: Error)
        ensures
            r matches Error::Tool { tool: t, message: m } && t@ == tool@ && m@ == message@,
    {
        Error::Tool { tool: tool.to_owned(), message: message.to_owned() }
    }

    /// A validation error.
    pub fn validation(msg: &str) -> (r: Error)
        ensures
            r matches Error::Validation(m) && m@ == msg@,
    {
        Error::Validation(msg.to_owned())
    }

    /// An extension error.
    pub fn extension(msg: &str) -> (r: Error)
        ensures
            r matches Error::Extension(m) && m@ == msg@,
    {
        Error::Extension(msg.to_owned())
    }

    /// The human-readable message of this error.
    pub fn message(&self) -> (r: String)
        ensures
            r@ == spec_message(self),
    {
        let mut out = String::new();
        match self {
            Error::Config(m) => {
                out.append("Configuration error: ");
                out.append(m.as_str());
            },
            Error::SessionNotFound { path } => {
                out.append("Session not found: ");
                out.append(path.as_str());
            },
            Error::Session(m) => {
                out.append("Session error: ");
                out.append(m.as_str());
            },
            Error::Auth(m) => {
                out.append("Authentication error: ");
                out.append(m.as_str());
            },
            Error::Provider { provider, message } => {
                out.append("Provider error (");
                out.append(provider.as_str());
                out.append("): ");
                out.append(message.as_str());
            },
            Error::Tool { tool, message } => {
                out.append("Tool error (");
                out.append(tool.as_str());
                out.append("): ");
                out.append(message.as_str());
            },
            Error::Validation(m) => {
                out.append("Validation error: ");
                out.append(m.as_str());
            },
            Error::Extension(m) => {
                out.append("Extension error: ");
                out.append(m.as_str());
            },
            Error::Io(kind) => {
                out.append("I/O error: ");
                match kind {
                    IoErrorKind::NotFound => out.append("not found"),
                    IoErrorKind::PermissionDenied => out.append("permission denied"),
                    IoErrorKind::AlreadyExists => out.append("already exists"),
                    IoErrorKind::Other => out.append("operation failed"),
                }
            },
            Error::Json(kind) => {
                out.append("JSON error: ");
                match kind {
                    JsonErrorKind::Syntax => out.append("invalid syntax"),
                    JsonErrorKind::Data => out.append("unexpected structure"),
                    JsonErrorKind::Other => out.append("operation failed"),
                }
            },
            Error::Sqlite(m) => {
                out.append("Database error: ");
                out.append(m.as_str());
            },
            Error::Aborted => {
                out.append("Operation aborted");
            },
            Error::Api(m) => {
                out.append("API error: ");
                out.append(m.as_str());
            },
        }
        out
    }
}

/// The message `Error::message` renders.
pub open spec fn spec_message(e: &Error) -> Seq<char> {
    match e {
        Error::Config(m) => "Configuration error: "@ + m@,
        Error::SessionNotFound { path } => "Session not found: "@ + path@,
        Error::Session(m) => "Session error: "@ + m@,
        Error::Auth(m) => "Authentication error: "@ + m@,
        Error::Provider { provider, message } => "Provider error ("@ + provider@ + "): "@
            + message@,
        Error::Tool { tool, message } => "Tool error ("@ + tool@ + "): "@ + message@,
        Error::Validation(m) => "Validation error: "@ + m@,
        Error::Extension(m) => "Extension error: "@ + m@,
        Error::Io(kind) => "I/O error: "@ + match kind {
            IoErrorKind::NotFound => "not found"@,
            IoErrorKind::PermissionDenied => "permission denied"@,
            IoErrorKind::AlreadyExists => "already exists"@,
            IoErrorKind::Other => "operation failed"@,
        },
        Error::Json(kind) => "JSON error: "@ + match kind {
            JsonErrorKind::Syntax => "invalid syntax"@,
            JsonErrorKind::Data => "unexpected structure"@,
            JsonErrorKind::Other => "operation failed"@,
        },
        Error::Sqlite(m) => "Database error: "@ + m@,
        Error::Aborted => "Operation aborted"@,
        Error::Api(m) => "API error: "@ + m@,
    }
}

/// A remediation hint: a one-line summary, actionable suggestions, and the
/// context fields to print with the error.
#[derive(Debug)]
pub struct ErrorHint {
    /// Brief one-line summary of the error category.
    pub summary: &'static str,
    /// Actionable suggestions for the user.
    pub hints: Vec<&'static str>,
    /// Context fields that should be displayed with the error.
    pub context_fields: Vec<&'static str>,
}

/// The abstract content of a hint: the views of its strings.
#[verifier::ext_equal]
pub struct HintModel {
    pub summary: Seq<char>,
    pub hints: Seq<Seq<char>>,
    pub context_fields: Seq<Seq<char>>,
}

/// The views of the strings in a list.
pub open spec fn strs_view(l: Seq<&'static str>) -> Seq<Seq<char>> {
    Seq::new(l.len(), |i: int| l[i]@)
}

impl ErrorHint {
    /// The hint's abstract content.
    pub open spec fn model(&self) -> HintModel {
        HintModel {
            summary: self.summary@,
            hints: strs_view(self.hints@),
            context_fields: strs_view(self.context_fields@),
        }
    }
}

/// An empty list of strings.
fn no_strs() -> (r: Vec<&'static str>)
    ensures
        strs_view(r@) =~= Seq::<Seq<char>>::empty(),
{
    Vec::new()
}

/// A list of one string.
fn one_str(a: &'static str) -> (r: Vec<&'static str>)
    ensures
        strs_view(r@) =~= seq![a@],
{
    let mut v: Vec<&'static str> = Vec::new();
    v.push(a);
    v
}

/// A list of two strings.
fn two_strs(a: &'static str, b: &'static str) -> (r: Vec<&'static str>)
    ensures
        strs_view(r@) =~= seq![a@, b@],
{
    let mut v: Vec<&'static str> = Vec::new();
    v.push(a);
    v.push(b);
    v
}

/// A list of three strings.
fn three_strs(a: &'static str, b: &'static str, c: &'static str) -> (r: Vec<&'static str>)
    ensures
        strs_view(r@) =~= seq![a@, b@, c@],
{
    let mut v: Vec<&'static str> = Vec::new();
    v.push(a);
    v.push(b);
    v.push(c);
    v
}

/// The hint each error maps to, by variant and message markers.
pub open spec fn spec_hints_for_error(e: &Error) -> HintModel {
    match e {
        Error::Config(msg) => if spec_contains(msg@, "settings.json"@) {
            HintModel {
                summary: "Invalid or missing configuration file"@,
                hints: seq!["Check that ~/.pi/agent/settings.json exists and is valid JSON"@, "Run 'pi config' to see configuration paths and precedence"@],
                context_fields: seq!["file_path"@],
            }
        }
        else if spec_contains(msg@, "models.json"@) {
            HintModel {
                summary: "Invalid models configuration"@,
                hints: seq!["Verify ~/.pi/agent/models.json has valid JSON syntax"@, "Check that 'providers' key exists in models.json"@],
                context_fields: seq!["file_path"@, "parse_error"@],
            }
        }
        else {
            HintModel {
                summary: "Configuration error"@,
                hints: seq!["Check configuration file syntax and required fields"@],
                context_fields: Seq::empty(),
            }
        },
        Error::SessionNotFound { path: _ } => HintModel {
            summary: "Session file not found"@,
            hints: seq!["Use 'pi' without --session to start a new session"@, "Use 'pi --resume' to pick from existing sessions"@],
            context_fields: seq!["path"@],
        },
        Error::Session(msg) => if spec_contains(msg@, "corrupted"@) || spec_contains(msg@, "invalid"@) {
            HintModel {
                summary: "Session file is corrupted or invalid"@,
                hints: seq!["Start a new session with 'pi'"@, "Session files are JSONL format - check for malformed lines"@],
                context_fields: seq!["path"@, "line_number"@],
            }
        }
        else if spec_contains(msg@, "locked"@) {
            HintModel {
                summary: "Session file is locked by another process"@,
                hints: seq!["Close other Pi instances using this session"@],
                context_fields: seq!["path"@],
            }
        }
        else {
            HintModel {
                summary: "Session error"@,
                hints: seq!["Try starting a new session with 'pi'"@],
                context_fields: Seq::empty(),
            }
        },
        Error::Auth(msg) => if spec_contains(msg@, "API key"@) || spec_contains(msg@, "api_key"@) {
            HintModel {
                summary: "API key not configured"@,
                hints: seq!["Set ANTHROPIC_API_KEY environment variable"@, "Or add key to ~/.pi/agent/auth.json"@],
                context_fields: seq!["provider"@],
            }
        }
        else if spec_contains(msg@, "401"@) || spec_contains(msg@, "unauthorized"@) {
            HintModel {
                summary: "API key is invalid or expired"@,
                hints: seq!["Verify your API key is correct and active"@, "Check API key permissions at your provider's console"@],
                context_fields: seq!["provider"@, "status_code"@],
            }
        }
        else if spec_contains(msg@, "OAuth"@) || spec_contains(msg@, "refresh"@) {
            HintModel {
                summary: "OAuth token expired or invalid"@,
                hints: seq!["Run 'pi login <provider>' to re-authenticate"@, "Or set API key directly via environment variable"@],
                context_fields: seq!["provider"@],
            }
        }
        else if spec_contains(msg@, "lock"@) {
            HintModel {
                summary: "Auth file locked by another process"@,
                hints: seq!["Close other Pi instances that may be using auth.json"@],
                context_fields: seq!["path"@],
            }
        }
        else {
            HintModel {
                summary: "Authentication error"@,
                hints: seq!["Check your API credentials"@],
                context_fields: Seq::empty(),
            }
        },
        Error::Provider { provider: _, message } => if spec_contains(message@, "429"@) || spec_contains(message@, "rate limit"@) {
            HintModel {
                summary: "Rate limit exceeded"@,
                hints: seq!["Wait a moment and try again"@, "Consider using a different model or reducing request frequency"@],
                context_fields: seq!["provider"@, "retry_after"@],
            }
        }
        else if spec_contains(message@, "500"@) || spec_contains(message@, "server error"@) {
            HintModel {
                summary: "Provider server error"@,
                hints: seq!["This is a temporary issue - try again shortly"@, "Check provider status page for outages"@],
                context_fields: seq!["provider"@, "status_code"@],
            }
        }
        else if spec_contains(message@, "connection"@) || spec_contains(message@, "network"@) {
            HintModel {
                summary: "Network connection error"@,
                hints: seq!["Check your internet connection"@, "If using a proxy, verify proxy settings"@],
                context_fields: seq!["provider"@, "url"@],
            }
        }
        else if spec_contains(message@, "timeout"@) {
            HintModel {
                summary: "Request timed out"@,
                hints: seq!["Try again - the provider may be slow"@, "Consider using a smaller context or simpler request"@],
                context_fields: seq!["provider"@, "timeout_seconds"@],
            }
        }
        else if spec_contains(message@, "model"@) && spec_contains(message@, "not found"@) {
            HintModel {
                summary: "Model not found or unavailable"@,
                hints: seq!["Check that the model ID is correct"@, "Use 'pi --list-models' to see available models"@],
                context_fields: seq!["provider"@, "model_id"@],
            }
        }
        else {
            HintModel {
                summary: "Provider API error"@,
                hints: seq!["Check provider documentation for this error"@],
                context_fields: seq!["provider"@, "status_code"@],
            }
        },
        Error::Tool { tool, message } => if tool@ == "read"@ && spec_contains(message@, "not found"@) {
            HintModel {
                summary: "File not found"@,
                hints: seq!["Verify the file path is correct"@, "Use 'ls' or 'find' to locate the file"@],
                context_fields: seq!["path"@],
            }
        }
        else if tool@ == "read"@ && spec_contains(message@, "permission"@) {
            HintModel {
                summary: "Permission denied reading file"@,
                hints: seq!["Check file permissions"@],
                context_fields: seq!["path"@],
            }
        }
        else if tool@ == "write"@ && spec_contains(message@, "permission"@) {
            HintModel {
                summary: "Permission denied writing file"@,
                hints: seq!["Check directory permissions"@],
                context_fields: seq!["path"@],
            }
        }
        else if tool@ == "edit"@ && spec_contains(message@, "not found"@) {
            HintModel {
                summary: "Text to replace not found in file"@,
                hints: seq!["Verify the old_text exactly matches content in the file"@, "Use 'read' to see the current file content"@],
                context_fields: seq!["path"@, "old_text_preview"@],
            }
        }
        else if tool@ == "edit"@ && spec_contains(message@, "ambiguous"@) {
            HintModel {
                summary: "Multiple matches found for replacement"@,
                hints: seq!["Provide more context in old_text to make it unique"@],
                context_fields: seq!["path"@, "match_count"@],
            }
        }
        else if tool@ == "bash"@ && spec_contains(message@, "timeout"@) {
            HintModel {
                summary: "Command timed out"@,
                hints: seq!["Increase timeout with 'timeout' parameter"@, "Consider breaking into smaller commands"@],
                context_fields: seq!["command"@, "timeout_seconds"@],
            }
        }
        else if tool@ == "bash"@ && spec_contains(message@, "exit code"@) {
            HintModel {
                summary: "Command failed with non-zero exit code"@,
                hints: seq!["Review command output for error details"@],
                context_fields: seq!["command"@, "exit_code"@, "stderr"@],
            }
        }
        else if tool@ == "grep"@ && spec_contains(message@, "pattern"@) {
            HintModel {
                summary: "Invalid regex pattern"@,
                hints: seq!["Check regex syntax - special characters may need escaping"@],
                context_fields: seq!["pattern"@],
            }
        }
        else if tool@ == "find"@ && spec_contains(message@, "fd"@) {
            HintModel {
                summary: "fd command not found"@,
                hints: seq!["Install fd: 'apt install fd-find' or 'brew install fd'"@, "The binary may be named 'fdfind' on some systems"@],
                context_fields: Seq::empty(),
            }
        }
        else {
            HintModel {
                summary: "Tool execution error"@,
                hints: seq!["Review the tool parameters and try again"@],
                context_fields: seq!["tool"@, "command"@],
            }
        },
        Error::Validation(msg) => if spec_contains(msg@, "required"@) {
            HintModel {
                summary: "Required field missing"@,
                hints: seq!["Provide all required parameters"@],
                context_fields: seq!["field_name"@],
            }
        }
        else if spec_contains(msg@, "type"@) {
            HintModel {
                summary: "Invalid parameter type"@,
                hints: seq!["Check parameter types match expected schema"@],
                context_fields: seq!["field_name"@, "expected_type"@],
            }
        }
        else {
            HintModel {
                summary: "Validation error"@,
                hints: seq!["Check input parameters"@],
                context_fields: Seq::empty(),
            }
        },
        Error::Extension(msg) => if spec_contains(msg@, "not found"@) {
            HintModel {
                summary: "Extension not found"@,
                hints: seq!["Check extension name is correct"@, "Use 'pi list' to see installed extensions"@],
                context_fields: seq!["extension_name"@],
            }
        }
        else if spec_contains(msg@, "manifest"@) {
            HintModel {
                summary: "Invalid extension manifest"@,
                hints: seq!["Check the extension manifest file for valid JSON"@, "Verify required fields are present"@],
                context_fields: seq!["extension_name"@, "manifest_path"@],
            }
        }
        else if spec_contains(msg@, "capability"@) || spec_contains(msg@, "permission"@) {
            HintModel {
                summary: "Extension capability denied"@,
                hints: seq!["Extension requires capabilities not granted by policy"@, "Review extension security settings"@],
                context_fields: seq!["extension_name"@, "capability"@],
            }
        }
        else {
            HintModel {
                summary: "Extension error"@,
                hints: seq!["Check extension configuration"@],
                context_fields: seq!["extension_name"@],
            }
        },
        Error::Io(kind) => match kind {
            IoErrorKind::NotFound => HintModel {
                summary: "File or directory not found"@,
                hints: seq!["Verify the path exists"@],
                context_fields: seq!["path"@],
            },
            IoErrorKind::PermissionDenied => HintModel {
                summary: "Permission denied"@,
                hints: seq!["Check file/directory permissions"@],
                context_fields: seq!["path"@],
            },
            IoErrorKind::AlreadyExists => HintModel {
                summary: "File already exists"@,
                hints: seq!["Use a different path or remove existing file first"@],
                context_fields: seq!["path"@],
            },
            IoErrorKind::Other => HintModel {
                summary: "I/O error"@,
                hints: seq!["Check file system and permissions"@],
                context_fields: seq!["path"@],
            },
        },
        Error::Json(kind) => match kind {
            JsonErrorKind::Syntax => HintModel {
                summary: "Invalid JSON syntax"@,
                hints: seq!["Check for missing commas, brackets, or quotes"@, "Validate JSON at jsonlint.com or similar"@],
                context_fields: seq!["line"@, "column"@],
            },
            JsonErrorKind::Data => HintModel {
                summary: "JSON data does not match expected structure"@,
                hints: seq!["Check that JSON fields match expected schema"@],
                context_fields: seq!["field_path"@],
            },
            JsonErrorKind::Other => HintModel {
                summary: "JSON error"@,
                hints: seq!["Verify JSON syntax and structure"@],
                context_fields: Seq::empty(),
            },
        },
        Error::Sqlite(msg) => if spec_contains(msg@, "locked"@) {
            HintModel {
                summary: "Database locked"@,
                hints: seq!["Close other Pi instances using this database"@],
                context_fields: seq!["db_path"@],
            }
        }
        else if spec_contains(msg@, "corrupt"@) {
            HintModel {
                summary: "Database corrupted"@,
                hints: seq!["The session index may need to be rebuilt"@, "Delete ~/.pi/agent/sessions/index.db to rebuild"@],
                context_fields: seq!["db_path"@],
            }
        }
        else {
            HintModel {
                summary: "Database error"@,
                hints: seq!["Check database file permissions and integrity"@],
                context_fields: seq!["db_path"@],
            }
        },
        Error::Aborted => HintModel {
            summary: "Operation cancelled by user"@,
            hints: Seq::empty(),
            context_fields: Seq::empty(),
        },
        Error::Api(msg) => if spec_contains(msg@, "401"@) {
            HintModel {
                summary: "Unauthorized API request"@,
                hints: seq!["Check your API credentials"@],
                context_fields: seq!["url"@, "status_code"@],
            }
        }
        else if spec_contains(msg@, "403"@) {
            HintModel {
                summary: "Forbidden API request"@,
                hints: seq!["Check API key permissions for this resource"@],
                context_fields: seq!["url"@, "status_code"@],
            }
        }
        else if spec_contains(msg@, "404"@) {
            HintModel {
                summary: "API resource not found"@,
                hints: seq!["Check the API endpoint URL"@],
                context_fields: seq!["url"@],
            }
        }
        else {
            HintModel {
                summary: "API error"@,
                hints: seq!["Check API documentation"@],
                context_fields: seq!["url"@, "status_code"@],
            }
        },
    }
}

/// Get remediation hints for an error: a stable summary, suggestions,
/// and context fields, chosen by the error's variant and by markers in
/// its message.
pub fn hints_for_error(error: &Error) -> (r: ErrorHint)
    ensures
        r.model() =~= spec_hints_for_error(error),
{
    match error {
        Error::Config(msg) => if str_contains_sub(msg.as_str(), "settings.json") {
            ErrorHint {
                summary: "Invalid or missing configuration file",
                hints: two_strs("Check that ~/.pi/agent/settings.json exists and is valid JSON", "Run 'pi config' to see configuration paths and precedence"),
                context_fields: one_str("file_path"),
            }
        }
        else if str_contains_sub(msg.as_str(), "models.json") {
            ErrorHint {
                summary: "Invalid models configuration",
                hints: two_strs("Verify ~/.pi/agent/models.json has valid JSON syntax", "Check that 'providers' key exists in models.json"),
                context_fields: two_strs("file_path", "parse_error"),
            }
        }
        else {
            ErrorHint {
                summary: "Configuration error",
                hints: one_str("Check configuration file syntax and required fields"),
                context_fields: no_strs(),
            }
        },
        Error::SessionNotFound { path: _ } => ErrorHint {
            summary: "Session file not found",
            hints: two_strs("Use 'pi' without --session to start a new session", "Use 'pi --resume' to pick from existing sessions"),
            context_fields: one_str("path"),
        },
        Error::Session(msg) => if str_contains_sub(msg.as_str(), "corrupted") || str_contains_sub(msg.as_str(), "invalid") {
            ErrorHint {
                summary: "Session file is corrupted or invalid",
                hints: two_strs("Start a new session with 'pi'", "Session files are JSONL format - check for malformed lines"),
                context_fields: two_strs("path", "line_number"),
            }
        }
        else if str_contains_sub(msg.as_str(), "locked") {
            ErrorHint {
                summary: "Session file is locked by another process",
                hints: one_str("Close other Pi instances using this session"),
                context_fields: one_str("path"),
            }
        }
        else {
            ErrorHint {
                summary: "Session error",
                hints: one_str("Try starting a new session with 'pi'"),
                context_fields: no_strs(),
            }
        },
        Error::Auth(msg) => if str_contains_sub(msg.as_str(), "API key") || str_contains_sub(msg.as_str(), "api_key") {
            ErrorHint {
                summary: "API key not configured",
                hints: two_strs("Set ANTHROPIC_API_KEY environment variable", "Or add key to ~/.pi/agent/auth.json"),
                context_fields: one_str("provider"),
            }
        }
        else if str_contains_sub(msg.as_str(), "401") || str_contains_sub(msg.as_str(), "unauthorized") {
            ErrorHint {
                summary: "API key is invalid or expired",
                hints: two_strs("Verify your API key is correct and active", "Check API key permissions at your provider's console"),
                context_fields: two_strs("provider", "status_code"),
            }
        }
        else if str_contains_sub(msg.as_str(), "OAuth") || str_contains_sub(msg.as_str(), "refresh") {
            ErrorHint {
                summary: "OAuth token expired or invalid",
                hints: two_strs("Run 'pi login <provider>' to re-authenticate", "Or set API key directly via environment variable"),
                context_fields: one_str("provider"),
            }
        }
        else if str_contains_sub(msg.as_str(), "lock") {
            ErrorHint {
                summary: "Auth file locked by another process",
                hints: one_str("Close other Pi instances that may be using auth.json"),
                context_fields: one_str("path"),
            }
        }
        else {
            ErrorHint {
                summary: "Authentication error",
                hints: one_str("Check your API credentials"),
                context_fields: no_strs(),
            }
        },
        Error::Provider { provider: _, message } => if str_contains_sub(message.as_str(), "429") || str_contains_sub(message.as_str(), "rate limit") {
            ErrorHint {
                summary: "Rate limit exceeded",
                hints: two_strs("Wait a moment and try again", "Consider using a different model or reducing request frequency"),
                context_fields: two_strs("provider", "retry_after"),
            }
        }
        else if str_contains_sub(message.as_str(), "500") || str_contains_sub(message.as_str(), "server error") {
            ErrorHint {
                summary: "Provider server error",
                hints: two_strs("This is a temporary issue - try again shortly", "Check provider status page for outages"),
                context_fields: two_strs("provider", "status_code"),
            }
        }
        else if str_contains_sub(message.as_str(), "connection") || str_contains_sub(message.as_str(), "network") {
            ErrorHint {
                summary: "Network connection error",
                hints: two_strs("Check your internet connection", "If using a proxy, verify proxy settings"),
                context_fields: two_strs("provider", "url"),
            }
        }
        else if str_contains_sub(message.as_str(), "timeout") {
            ErrorHint {
                summary: "Request timed out",
                hints: two_strs("Try again - the provider may be slow", "Consider using a smaller context or simpler request"),
                context_fields: two_strs("provider", "timeout_seconds"),
            }
        }
        else if str_contains_sub(message.as_str(), "model") && str_contains_sub(message.as_str(), "not found") {
            ErrorHint {
                summary: "Model not found or unavailable",
                hints: two_strs("Check that the model ID is correct", "Use 'pi --list-models' to see available models"),
                context_fields: two_strs("provider", "model_id"),
            }
        }
        else {
            ErrorHint {
                summary: "Provider API error",
                hints: one_str("Check provider documentation for this error"),
                context_fields: two_strs("provider", "status_code"),
            }
        },
        Error::Tool { tool, message } => if str_eq(tool.as_str(), "read") && str_contains_sub(message.as_str(), "not found") {
            ErrorHint {
                summary: "File not found",
                hints: two_strs("Verify the file path is correct", "Use 'ls' or 'find' to locate the file"),
                context_fields: one_str("path"),
            }
        }
        else if str_eq(tool.as_str(), "read") && str_contains_sub(message.as_str(), "permission") {
            ErrorHint {
                summary: "Permission denied reading file",
                hints: one_str("Check file permissions"),
                context_fields: one_str("path"),
            }
        }
        else if str_eq(tool.as_str(), "write") && str_contains_sub(message.as_str(), "permission") {
            ErrorHint {
                summary: "Permission denied writing file",
                hints: one_str("Check directory permissions"),
                context_fields: one_str("path"),
            }
        }
        else if str_eq(tool.as_str(), "edit") && str_contains_sub(message.as_str(), "not found") {
            ErrorHint {
                summary: "Text to replace not found in file",
                hints: two_strs("Verify the old_text exactly matches content in the file", "Use 'read' to see the current file content"),
                context_fields: two_strs("path", "old_text_preview"),
            }
        }
        else if str_eq(tool.as_str(), "edit") && str_contains_sub(message.as_str(), "ambiguous") {
            ErrorHint {
                summary: "Multiple matches found for replacement",
                hints: one_str("Provide more context in old_text to make it unique"),
                context_fields: two_strs("path", "match_count"),
            }
        }
        else if str_eq(tool.as_str(), "bash") && str_contains_sub(message.as_str(), "timeout") {
            ErrorHint {
                summary: "Command timed out",
                hints: two_strs("Increase timeout with 'timeout' parameter", "Consider breaking into smaller commands"),
                context_fields: two_strs("command", "timeout_seconds"),
            }
        }
        else if str_eq(tool.as_str(), "bash") && str_contains_sub(message.as_str(), "exit code") {
            ErrorHint {
                summary: "Command failed with non-zero exit code",
                hints: one_str("Review command output for error details"),
                context_fields: three_strs("command", "exit_code", "stderr"),
            }
        }
        else if str_eq(tool.as_str(), "grep") && str_contains_sub(message.as_str(), "pattern") {
            ErrorHint {
                summary: "Invalid regex pattern",
                hints: one_str("Check regex syntax - special characters may need escaping"),
                context_fields: one_str("pattern"),
            }
        }
        else if str_eq(tool.as_str(), "find") && str_contains_sub(message.as_str(), "fd") {
            ErrorHint {
                summary: "fd command not found",
                hints: two_strs("Install fd: 'apt install fd-find' or 'brew install fd'", "The binary may be named 'fdfind' on some systems"),
                context_fields: no_strs(),
            }
        }
        else {
            ErrorHint {
                summary: "Tool execution error",
                hints: one_str("Review the tool parameters and try again"),
                context_fields: two_strs("tool", "command"),
            }
        },
        Error::Validation(msg) => if str_contains_sub(msg.as_str(), "required") {
            ErrorHint {
                summary: "Required field missing",
                hints: one_str("Provide all required parameters"),
                context_fields: one_str("field_name"),
            }
        }
        else if str_contains_sub(msg.as_str(), "type") {
            ErrorHint {
                summary: "Invalid parameter type",
                hints: one_str("Check parameter types match expected schema"),
                context_fields: two_strs("field_name", "expected_type"),
            }
        }
        else {
            ErrorHint {
                summary: "Validation error",
                hints: one_str("Check input parameters"),
                context_fields: no_strs(),
            }
        },
        Error::Extension(msg) => if str_contains_sub(msg.as_str(), "not found") {
            ErrorHint {
                summary: "Extension not found",
                hints: two_strs("Check extension name is correct", "Use 'pi list' to see installed extensions"),
                context_fields: one_str("extension_name"),
            }
        }
        else if str_contains_sub(msg.as_str(), "manifest") {
            ErrorHint {
                summary: "Invalid extension manifest",
                hints: two_strs("Check the extension manifest file for valid JSON", "Verify required fields are present"),
                context_fields: two_strs("extension_name", "manifest_path"),
            }
        }
        else if str_contains_sub(msg.as_str(), "capability") || str_contains_sub(msg.as_str(), "permission") {
            ErrorHint {
                summary: "Extension capability denied",
                hints: two_strs("Extension requires capabilities not granted by policy", "Review extension security settings"),
                context_fields: two_strs("extension_name", "capability"),
            }
        }
        else {
            ErrorHint {
                summary: "Extension error",
                hints: one_str("Check extension configuration"),
                context_fields: one_str("extension_name"),
            }
        },
        Error::Io(kind) => match kind {
            IoErrorKind::NotFound => ErrorHint {
                summary: "File or directory not found",
                hints: one_str("Verify the path exists"),
                context_fields: one_str("path"),
            },
            IoErrorKind::PermissionDenied => ErrorHint {
                summary: "Permission denied",
                hints: one_str("Check file/directory permissions"),
                context_fields: one_str("path"),
            },
            IoErrorKind::AlreadyExists => ErrorHint {
                summary: "File already exists",
                hints: one_str("Use a different path or remove existing file first"),
                context_fields: one_str("path"),
            },
            IoErrorKind::Other => ErrorHint {
                summary: "I/O error",
                hints: one_str("Check file system and permissions"),
                context_fields: one_str("path"),
            },
        },
        Error::Json(kind) => match kind {
            JsonErrorKind::Syntax => ErrorHint {
                summary: "Invalid JSON syntax",
                hints: two_strs("Check for missing commas, brackets, or quotes", "Validate JSON at jsonlint.com or similar"),
                context_fields: two_strs("line", "column"),
            },
            JsonErrorKind::Data => ErrorHint {
                summary: "JSON data does not match expected structure",
                hints: one_str("Check that JSON fields match expected schema"),
                context_fields: one_str("field_path"),
            },
            JsonErrorKind::Other => ErrorHint {
                summary: "JSON error",
                hints: one_str("Verify JSON syntax and structure"),
                context_fields: no_strs(),
            },
        },
        Error::Sqlite(msg) => if str_contains_sub(msg.as_str(), "locked") {
            ErrorHint {
                summary: "Database locked",
                hints: one_str("Close other Pi instances using this database"),
                context_fields: one_str("db_path"),
            }
        }
        else if str_contains_sub(msg.as_str(), "corrupt") {
            ErrorHint {
                summary: "Database corrupted",
                hints: two_strs("The session index may need to be rebuilt", "Delete ~/.pi/agent/sessions/index.db to rebuild"),
                context_fields: one_str("db_path"),
            }
        }
        else {
            ErrorHint {
                summary: "Database error",
                hints: one_str("Check database file permissions and integrity"),
                context_fields: one_str("db_path"),
            }
        },
        Error::Aborted => ErrorHint {
            summary: "Operation cancelled by user",
            hints: no_strs(),
            context_fields: no_strs(),
        },
        Error::Api(msg) => if str_contains_sub(msg.as_str(), "401") {
            ErrorHint {
                summary: "Unauthorized API request",
                hints: one_str("Check your API credentials"),
                context_fields: two_strs("url", "status_code"),
            }
        }
        else if str_contains_sub(msg.as_str(), "403") {
            ErrorHint {
                summary: "Forbidden API request",
                hints: one_str("Check API key permissions for this resource"),
                context_fields: two_strs("url", "status_code"),
            }
        }
        else if str_contains_sub(msg.as_str(), "404") {
            ErrorHint {
                summary: "API resource not found",
                hints: one_str("Check the API endpoint URL"),
                context_fields: one_str("url"),
            }
        }
        else {
            ErrorHint {
                summary: "API error",
                hints: one_str("Check API documentation"),
                context_fields: two_strs("url", "status_code"),
            }
        },
    }
}

/// The bullet list rendered for a hint's suggestions.
pub open spec fn spec_bullets(hs: Seq<Seq<char>>) -> Seq<char>
    decreases hs.len(),
{
    if hs.len() == 0 {
        Seq::empty()
    } else {
        "  \u{2022} "@ + hs[0] + "\n"@ + spec_bullets(hs.drop_first())
    }
}

/// The text `format_error_with_hints` renders: the error's message, the
/// hint's summary when the message does not already contain it, and the
/// suggestions as a bullet list.
pub open spec fn spec_format_error(e: &Error) -> Seq<char> {
    let msg = spec_message(e);
    let hint = spec_hints_for_error(e);
    let head = "Error: "@ + msg + "\n"@;
    let with_summary = if !spec_contains(msg, hint.summary) {
        head + "\n"@ + hint.summary + "\n"@
    } else {
        head
    };
    if hint.hints.len() > 0 {
        with_summary + "\nSuggestions:\n"@ + spec_bullets(hint.hints)
    } else {
        with_summary
    }
}

/// Format an error with its hints for display: the message first, then the
/// summary if it adds anything, then the suggestions.
pub fn format_error_with_hints(error: &Error) -> (r: String)
    ensures
        r@ == spec_format_error(error),
{
    let hint = hints_for_error(error);
    let msg = error.message();
    let mut out = String::new();
    out.append("Error: ");
    out.append(msg.as_str());
    out.append("\n");
    if !str_contains_sub(msg.as_str(), hint.summary) {
        out.append("\n");
        out.append(hint.summary);
        out.append("\n");
    }
    if hint.hints.len() > 0 {
        out.append("\nSuggestions:\n");
        let n = hint.hints.len();
        let mut i: usize = 0;
        let ghost base = out@;
        proof {
            assert(strs_view(hint.hints@).take(0) =~= Seq::<Seq<char>>::empty());
        }
        while i < n
            invariant
                n == hint.hints@.len(),
                i <= n,
                out@ == base + spec_bullets(strs_view(hint.hints@).take(i as int)),
            decreases n - i,
        {
            proof {
                let hs = strs_view(hint.hints@);
                assert(hs.take(i + 1) =~= hs.take(i as int).push(hint.hints@[i as int]@));
                lemma_bullets_snoc(hs.take(i as int), hint.hints@[i as int]@);
            }
            out.append("  \u{2022} ");
            out.append(hint.hints[i]);
            out.append("\n");
            i = i + 1;
            proof {
                assert(out@ =~= base + spec_bullets(strs_view(hint.hints@).take(i as int)));
            }
        }
        proof {
            assert(strs_view(hint.hints@).take(n as int) =~= strs_view(hint.hints@));
        }
    }
    out
}

/// Rendering one more suggestion appends one more bullet line.
proof fn lemma_bullets_snoc(hs: Seq<Seq<char>>, x: Seq<char>)
    ensures
        spec_bullets(hs.push(x)) == spec_bullets(hs) + "  \u{2022} "@ + x + "\n"@,
    decreases hs.len(),
{
    let p = hs.push(x);
    if hs.len() == 0 {
        assert(p.drop_first() =~= Seq::<Seq<char>>::empty());
        assert(p[0] == x);
        assert(spec_bullets(p) == "  \u{2022} "@ + p[0] + "\n"@ + spec_bullets(p.drop_first()));
        assert(spec_bullets(p.drop_first()) == Seq::<char>::empty());
        assert(spec_bullets(hs) == Seq::<char>::empty());
        assert(spec_bullets(p) =~= spec_bullets(hs) + "  \u{2022} "@ + x + "\n"@);
    } else {
        assert(p.drop_first() =~= hs.drop_first().push(x));
        assert(p[0] == hs[0]);
        assert(spec_bullets(p) == "  \u{2022} "@ + p[0] + "\n"@ + spec_bullets(p.drop_first()));
        lemma_bullets_snoc(hs.drop_first(), x);
        assert(spec_bullets(p.drop_first()) == spec_bullets(hs.drop_first()) + "  \u{2022} "@ + x
            + "\n"@);
        assert(spec_bullets(hs) == "  \u{2022} "@ + hs[0] + "\n"@ + spec_bullets(hs.drop_first()));
        assert(spec_bullets(p) =~= spec_bullets(hs) + "  \u{2022} "@ + x + "\n"@);
    }
}

} // verus!

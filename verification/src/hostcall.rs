//! Host calls: the requests extensions issue, their validation, the mapping
//! from method and parameters to the capability they exercise, the policy
//! gate, and the table that pairs each call with its promise resolvers.
//!
//! For every request exactly one outcome is produced, and it carries the
//! request's call id: each constructor and each path below says so.

use vstd::prelude::*;
use crate::perms::PermissionStore;
use crate::policy::{opt_str_view, spec_decision, spec_reason, ExtensionPolicy, PolicyDecision};
use crate::text::{chars_eq_str, chars_to_string, normalize_str, normalize_token, str_eq};

verus! {

/// A neutral JSON value: what host-call parameters and results are made of.
/// Numbers are held as integers; fractional numbers do not occur in the
/// payloads the runtime inspects.
#[derive(Debug)]
pub enum JsonValue {
    Null,
    Bool(bool),
    Int(i64),
    Text(String),
    Array(Vec<JsonValue>),
    Object(Vec<(String, JsonValue)>),
}

/// The value of the first field with the given name.
pub open spec fn spec_obj_get(fields: Seq<(String, JsonValue)>, key: Seq<char>) -> Option<
    JsonValue,
>
    decreases fields.len(),
{
    if fields.len() == 0 {
        None
    } else if fields[0].0@ == key {
        Some(fields[0].1)
    } else {
        spec_obj_get(fields.drop_first(), key)
    }
}

impl JsonValue {
    /// The value of the first field with the given name, on an object.
    pub open spec fn spec_get(&self, key: Seq<char>) -> Option<JsonValue> {
        match self {
            JsonValue::Object(fields) => spec_obj_get(fields@, key),
            _ => None,
        }
    }

    /// Fetch a field of an object value.
    pub fn get<'a>(&'a self, key: &str) -> (r: Option<&'a JsonValue>)
        ensures
            match r {
                Some(v) => self.spec_get(key@) == Some(*v),
                None => self.spec_get(key@) is None,
            },
    {
        match self {
            JsonValue::Object(fields) => {
                proof {
                    assert(*self == JsonValue::Object(*fields));
                    assert(self.spec_get(key@) == spec_obj_get(fields@, key@));
                }
                let n = fields.len();
                let mut i: usize = 0;
                proof {
                    assert(fields@.skip(0) =~= fields@);
                }
                while i < n
                    invariant
                        n == fields@.len(),
                        i <= n,
                        self.spec_get(key@) == spec_obj_get(fields@, key@),
                        spec_obj_get(fields@, key@) == spec_obj_get(
                            fields@.skip(i as int),
                            key@,
                        ),
                    decreases n - i,
                {
                    proof {
                        assert(fields@.skip(i as int)[0] == fields@[i as int]);
                        assert(fields@.skip(i as int).drop_first() =~= fields@.skip(i + 1));
                    }
                    if str_eq(fields[i].0.as_str(), key) {
                        proof {
                            assert(spec_obj_get(fields@.skip(i as int), key@) == Some(
                                fields@[i as int].1,
                            ));
                        }
                        return Some(&fields[i].1);
                    }
                    i = i + 1;
                }
                proof {
                    assert(fields@.skip(n as int) =~= Seq::<(String, JsonValue)>::empty());
                }
                None
            },
            _ => None,
        }
    }

    /// Whether this value is an object.
    pub fn is_object(&self) -> (r: bool)
        ensures
            r == (self matches JsonValue::Object(_)),
    {
        match self {
            JsonValue::Object(_) => true,
            _ => false,
        }
    }
}

/// A host call as the dispatcher receives it.
#[derive(Debug)]
pub struct HostCallPayload {
    /// Correlates the outcome with the promise awaiting it.
    pub call_id: String,
    /// The capability the caller declares it is exercising.
    pub capability: String,
    /// Selects the handler.
    pub method: String,
    /// Structured arguments for the handler.
    pub params: JsonValue,
    /// Deadline for the underlying work, in milliseconds.
    pub timeout_ms: Option<u64>,
    /// Names a cancellation token when the caller may abort the work.
    pub cancel_token: Option<String>,
    /// Opaque caller context echoed through.
    pub context: Option<String>,
}

/// The closed set of outcome error codes.
#[derive(Debug, Clone, Copy, PartialEq, Eq, Structural)]
pub enum HostCallErrorCode {
    InvalidRequest,
    Denied,
    NotFound,
    Timeout,
    Cancelled,
    Internal,
    Unsupported,
}

/// The wire token of an error code.
pub open spec fn spec_code_token(c: HostCallErrorCode) -> Seq<char> {
    match c {
        HostCallErrorCode::InvalidRequest => "invalid_request"@,
        HostCallErrorCode::Denied => "denied"@,
        HostCallErrorCode::NotFound => "not_found"@,
        HostCallErrorCode::Timeout => "timeout"@,
        HostCallErrorCode::Cancelled => "cancelled"@,
        HostCallErrorCode::Internal => "internal"@,
        HostCallErrorCode::Unsupported => "unsupported"@,
    }
}

impl HostCallErrorCode {
    /// The wire token of this code.
    pub fn as_str(&self) -> (r: &'static str)
        ensures
            r@ == spec_code_token(*self),
    {
        match self {
            HostCallErrorCode::InvalidRequest => "invalid_request",
            HostCallErrorCode::Denied => "denied",
            HostCallErrorCode::NotFound => "not_found",
            HostCallErrorCode::Timeout => "timeout",
            HostCallErrorCode::Cancelled => "cancelled",
            HostCallErrorCode::Internal => "internal",
            HostCallErrorCode::Unsupported => "unsupported",
        }
    }
}

/// An outcome error.
#[derive(Debug)]
pub struct HostCallError {
    pub code: HostCallErrorCode,
    pub message: String,
}

/// The outcome of one host call, correlated by call id.
#[derive(Debug)]
pub struct HostCallResult {
    pub call_id: String,
    pub value: Option<JsonValue>,
    pub error: Option<HostCallError>,
    pub is_error: bool,
}

/// A successful outcome for the given call.
pub fn outcome_success(call_id: &str, value: JsonValue) -> (r: HostCallResult)
    ensures
        r.call_id@ == call_id@,
        !r.is_error,
        r.error is None,
        r.value == Some(value),
{
    HostCallResult {
        call_id: call_id.to_owned(),
        value: Some(value),
        error: None,
        is_error: false,
    }
}

/// An error outcome for the given call.
pub fn outcome_error(call_id: &str, code: HostCallErrorCode, message: &str) -> (r: HostCallResult)
    ensures
        r.call_id@ == call_id@,
        r.is_error,
        r.value is None,
        r.error matches Some(e) && e.code == code && e.message@ == message@,
{
    HostCallResult {
        call_id: call_id.to_owned(),
        value: None,
        error: Some(HostCallError { code, message: message.to_owned() }),
        is_error: true,
    }
}

/// Why a request is rejected before any policy or handler sees it.
pub open spec fn spec_validation_message(call: &HostCallPayload) -> Option<Seq<char>> {
    if normalize_token(call.call_id@).len() == 0 {
        Some("call_id must not be empty"@)
    } else if normalize_token(call.capability@).len() == 0 {
        Some("capability must not be empty"@)
    } else if normalize_token(call.method@).len() == 0 {
        Some("method must not be empty"@)
    } else if !(call.params matches JsonValue::Object(_)) {
        Some("params must be an object"@)
    } else {
        None
    }
}

/// Check the request's shape: call id, capability and method must be
/// non-empty after trimming, and the parameters must be an object.
pub fn validate_host_call(call: &HostCallPayload) -> (r: Option<String>)
    ensures
        match r {
            Some(m) => spec_validation_message(call) == Some(m@),
            None => spec_validation_message(call) is None,
        },
{
    let id = normalize_str(call.call_id.as_str());
    if id.len() == 0 {
        return Some("call_id must not be empty".to_owned());
    }
    let cap = normalize_str(call.capability.as_str());
    if cap.len() == 0 {
        return Some("capability must not be empty".to_owned());
    }
    let m = normalize_str(call.method.as_str());
    if m.len() == 0 {
        return Some("method must not be empty".to_owned());
    }
    if !call.params.is_object() {
        return Some("params must be an object".to_owned());
    }
    None
}

/// The capability a tool name requires.
pub open spec fn spec_tool_cap(n: Seq<char>) -> Option<Seq<char>> {
    if n.len() == 0 {
        None
    } else if n == "read"@ || n == "grep"@ || n == "find"@ || n == "ls"@ {
        Some("read"@)
    } else if n == "write"@ || n == "edit"@ {
        Some("write"@)
    } else if n == "bash"@ {
        Some("exec"@)
    } else {
        Some("tool"@)
    }
}

/// The capability a file-system operation requires.
pub open spec fn spec_fs_cap(n: Seq<char>) -> Option<Seq<char>> {
    if n == "read"@ || n == "list"@ || n == "readdir"@ || n == "stat"@ {
        Some("read"@)
    } else if n == "write"@ || n == "mkdir"@ || n == "delete"@ || n == "remove"@ || n == "rm"@ {
        Some("write"@)
    } else {
        None
    }
}

/// The capability a request requires, judged by its method and parameters;
/// methods and names compare trimmed and case-insensitively. `None` means
/// the mapping is unresolved and the declared capability governs.
pub open spec fn spec_required_cap(call: &HostCallPayload) -> Option<Seq<char>> {
    let m = normalize_token(call.method@);
    if m == "tool"@ {
        match call.params.spec_get("name"@) {
            Some(JsonValue::Text(s)) => spec_tool_cap(normalize_token(s@)),
            _ => None,
        }
    } else if m == "fs"@ {
        match call.params.spec_get("op"@) {
            Some(JsonValue::Text(s)) => spec_fs_cap(normalize_token(s@)),
            _ => None,
        }
    } else if m == "exec"@ || m == "env"@ || m == "http"@ || m == "session"@ || m == "ui"@ || m
        == "events"@ || m == "log"@ {
        Some(m)
    } else {
        None
    }
}

/// The capability a tool name requires, on its normalized form.
fn tool_cap(n: &Vec<char>) -> (r: Option<&'static str>)
    ensures
        match r {
            Some(c) => spec_tool_cap(n@) == Some(c@),
            None => spec_tool_cap(n@) is None,
        },
{
    if n.len() == 0 {
        None
    } else if chars_eq_str(n, "read") || chars_eq_str(n, "grep") || chars_eq_str(n, "find")
        || chars_eq_str(n, "ls") {
        Some("read")
    } else if chars_eq_str(n, "write") || chars_eq_str(n, "edit") {
        Some("write")
    } else if chars_eq_str(n, "bash") {
        Some("exec")
    } else {
        Some("tool")
    }
}

/// The capability a file-system operation requires, on its normalized form.
fn fs_cap(n: &Vec<char>) -> (r: Option<&'static str>)
    ensures
        match r {
            Some(c) => spec_fs_cap(n@) == Some(c@),
            None => spec_fs_cap(n@) is None,
        },
{
    if chars_eq_str(n, "read") || chars_eq_str(n, "list") || chars_eq_str(n, "readdir")
        || chars_eq_str(n, "stat") {
        Some("read")
    } else if chars_eq_str(n, "write") || chars_eq_str(n, "mkdir") || chars_eq_str(n, "delete")
        || chars_eq_str(n, "remove") || chars_eq_str(n, "rm") {
        Some("write")
    } else {
        None
    }
}

/// Map a host call to the capability it requires, or `None` when the
/// mapping is unresolved and the declared capability governs.
pub fn required_capability_for_host_call(call: &HostCallPayload) -> (r: Option<String>)
    ensures
        match r {
            Some(c) => spec_required_cap(call) == Some(c@),
            None => spec_required_cap(call) is None,
        },
{
    let m = normalize_str(call.method.as_str());
    if chars_eq_str(&m, "tool") {
        match call.params.get("name") {
            Some(v) => match v {
                JsonValue::Text(s) => {
                    let n = normalize_str(s.as_str());
                    match tool_cap(&n) {
                        Some(c) => Some(c.to_owned()),
                        None => None,
                    }
                },
                _ => None,
            },
            None => None,
        }
    } else if chars_eq_str(&m, "fs") {
        match call.params.get("op") {
            Some(v) => match v {
                JsonValue::Text(s) => {
                    let n = normalize_str(s.as_str());
                    match fs_cap(&n) {
                        Some(c) => Some(c.to_owned()),
                        None => None,
                    }
                },
                _ => None,
            },
            None => None,
        }
    } else if chars_eq_str(&m, "exec") || chars_eq_str(&m, "env") || chars_eq_str(&m, "http")
        || chars_eq_str(&m, "session") || chars_eq_str(&m, "ui") || chars_eq_str(&m, "events")
        || chars_eq_str(&m, "log") {
        Some(chars_to_string(&m))
    } else {
        None
    }
}

/// What the dispatcher decided before any handler runs.
#[derive(Debug)]
pub enum DispatchPlan {
    /// The request is rejected; this outcome answers it.
    Reject(HostCallResult),
    /// Policy wants a user prompt for this capability; the caller resolves
    /// it and then records the choice.
    NeedsPrompt { capability: String },
    /// The request is authorized for this capability; the handler runs.
    Execute { capability: String },
}

/// The capability a request is evaluated under: the mapped one, else the
/// declared one.
pub open spec fn spec_effective_cap(call: &HostCallPayload) -> Seq<char> {
    match spec_required_cap(call) {
        Some(c) => c,
        None => call.capability@,
    }
}

/// What `plan_host_call` decides, as a spec-level case split.
pub open spec fn spec_plan(
    policy: &ExtensionPolicy,
    cache: &PermissionStore,
    extension_id: Option<Seq<char>>,
    ui_available: bool,
    call: &HostCallPayload,
) -> DispatchDecision {
    if spec_validation_message(call) is Some {
        DispatchDecision::RejectInvalid
    } else {
        let cap = spec_effective_cap(call);
        let decision = spec_decision(policy, cap, extension_id);
        if decision == PolicyDecision::Allow {
            DispatchDecision::Run
        } else if decision == PolicyDecision::Deny {
            DispatchDecision::RejectDenied
        } else {
            let key = match extension_id {
                Some(e) => e,
                None => ""@,
            };
            match cache.spec_lookup(key, normalize_token(cap)) {
                Some(true) => DispatchDecision::Run,
                Some(false) => DispatchDecision::RejectCachedDeny,
                None => if ui_available {
                    DispatchDecision::Prompt
                } else {
                    DispatchDecision::RejectNoPrompt
                },
            }
        }
    }
}

/// The abstract outcome of planning, for stating `plan_host_call`.
#[derive(Debug, Clone, Copy, PartialEq, Eq, Structural)]
pub enum DispatchDecision {
    RejectInvalid,
    RejectDenied,
    RejectCachedDeny,
    RejectNoPrompt,
    Prompt,
    Run,
}

/// The message a rejection carries, by plan case: the validation failure,
/// or the normalized capability with the reason — the stable policy reason
/// for a policy denial, `prompt_denied` for a cached refusal,
/// `prompt_required` when no interactive channel can ask.
pub open spec fn spec_reject_message(
    policy: &ExtensionPolicy,
    extension_id: Option<Seq<char>>,
    call: &HostCallPayload,
    d: DispatchDecision,
) -> Seq<char> {
    if d == DispatchDecision::RejectInvalid {
        spec_validation_message(call).unwrap()
    } else {
        let cap = spec_effective_cap(call);
        if d == DispatchDecision::RejectDenied {
            normalize_token(cap) + ": "@ + spec_reason(policy, cap, extension_id)
        } else if d == DispatchDecision::RejectCachedDeny {
            normalize_token(cap) + ": "@ + "prompt_denied"@
        } else {
            normalize_token(cap) + ": "@ + "prompt_required"@
        }
    }
}

/// Validate and authorize one host call. Exactly one plan comes back; a
/// rejection already carries the final outcome, with the request's call
/// id, the `invalid_request` or `denied` code, and a message naming the
/// normalized capability and the reason that fired.
///
/// A `Prompt` decision is resolved against the cache, keyed by extension id
/// and normalized capability: a cached `true` authorizes, a cached `false`
/// denies, and a miss asks for a prompt when the caller has an interactive
/// channel, else denies.
pub fn plan_host_call(
    policy: &ExtensionPolicy,
    cache: &PermissionStore,
    extension_id: Option<&str>,
    ui_available: bool,
    call: &HostCallPayload,
) -> (r: DispatchPlan)
    ensures
        ({
            let d = spec_plan(policy, cache, opt_str_view(extension_id), ui_available, call);
            match r {
                DispatchPlan::Reject(res) => res.call_id@ == call.call_id@ && res.is_error
                    && res.value is None && (res.error matches Some(e) && (
                    if d == DispatchDecision::RejectInvalid {
                        e.code == HostCallErrorCode::InvalidRequest
                    } else {
                        e.code == HostCallErrorCode::Denied
                    }) && e.message@ == spec_reject_message(
                    policy,
                    opt_str_view(extension_id),
                    call,
                    d,
                )) && (d == DispatchDecision::RejectInvalid || d
                    == DispatchDecision::RejectDenied || d == DispatchDecision::RejectCachedDeny
                    || d == DispatchDecision::RejectNoPrompt),
                DispatchPlan::NeedsPrompt { capability } => d == DispatchDecision::Prompt
                    && capability@ == spec_effective_cap(call),
                DispatchPlan::Execute { capability } => d == DispatchDecision::Run && capability@
                    == spec_effective_cap(call),
            }
        }),
        ({
            let d = spec_plan(policy, cache, opt_str_view(extension_id), ui_available, call);
            (r matches DispatchPlan::Reject(_)) == (d == DispatchDecision::RejectInvalid || d
                == DispatchDecision::RejectDenied || d == DispatchDecision::RejectCachedDeny || d
                == DispatchDecision::RejectNoPrompt)
        }),
{
    match validate_host_call(call) {
        Some(message) => {
            return DispatchPlan::Reject(
                outcome_error(
                    call.call_id.as_str(),
                    HostCallErrorCode::InvalidRequest,
                    message.as_str(),
                ),
            );
        },
        None => {},
    }
    let cap = match required_capability_for_host_call(call) {
        Some(c) => c,
        None => crate::policy::copy_string(&call.capability),
    };
    let check = match extension_id {
        Some(e) => policy.evaluate_for(cap.as_str(), Some(e)),
        None => policy.evaluate_for(cap.as_str(), None),
    };
    match check.decision {
        PolicyDecision::Allow => DispatchPlan::Execute { capability: cap },
        PolicyDecision::Deny => {
            let mut message = crate::policy::copy_string(&check.capability);
            message.append(": ");
            message.append(check.reason.as_str());
            DispatchPlan::Reject(
                outcome_error(
                    call.call_id.as_str(),
                    HostCallErrorCode::Denied,
                    message.as_str(),
                ),
            )
        },
        PolicyDecision::Prompt => {
            let key = match extension_id {
                Some(e) => e,
                None => "",
            };
            let ncap = chars_to_string(&normalize_str(cap.as_str()));
            match cache.lookup(key, ncap.as_str()) {
                Some(true) => DispatchPlan::Execute { capability: cap },
                Some(false) => {
                    let mut message = crate::policy::copy_string(&check.capability);
                    message.append(": ");
                    message.append("prompt_denied");
                    DispatchPlan::Reject(
                        outcome_error(
                            call.call_id.as_str(),
                            HostCallErrorCode::Denied,
                            message.as_str(),
                        ),
                    )
                },
                None => {
                    if ui_available {
                        DispatchPlan::NeedsPrompt { capability: cap }
                    } else {
                        let mut message = crate::policy::copy_string(&check.capability);
                        message.append(": ");
                        message.append("prompt_required");
                        DispatchPlan::Reject(
                            outcome_error(
                                call.call_id.as_str(),
                                HostCallErrorCode::Denied,
                                message.as_str(),
                            ),
                        )
                    }
                },
            }
        },
    }
}

/// A denial message names the normalized capability and the stable policy
/// reason, so callers can see which rule fired.
pub fn policy_denial_message(capability: &str, reason: &str) -> (r: String)
    ensures
        r@ == normalize_token(capability@) + ": "@ + reason@,
{
    let ncap = normalize_str(capability);
    let mut message = chars_to_string(&ncap);
    message.append(": ");
    message.append(reason);
    message
}


/// One character of a JSON string body, escaped: quotes, backslashes and
/// the named control characters get a backslash form, other control
/// characters a four-digit escape, everything else passes through.
pub open spec fn json_escape_char(c: char) -> Seq<char> {
    if c == '"' {
        seq!['\\', '"']
    } else if c == '\\' {
        seq!['\\', '\\']
    } else if c == '\n' {
        seq!['\\', 'n']
    } else if c == '\r' {
        seq!['\\', 'r']
    } else if c == '\t' {
        seq!['\\', 't']
    } else if (c as u32) < 0x20 {
        seq!['\\', 'u', '0', '0', hex_char(((c as u32) / 16) as int), hex_char(
            ((c as u32) % 16) as int,
        )]
    } else {
        seq![c]
    }
}

/// One lowercase hexadecimal digit.
pub open spec fn hex_char(d: int) -> char {
    if d < 10 {
        ((48 + d) as u8) as char
    } else {
        ((87 + d) as u8) as char
    }
}

/// A JSON string body, escaped.
pub open spec fn spec_json_escape(s: Seq<char>) -> Seq<char>
    decreases s.len(),
{
    if s.len() == 0 {
        Seq::empty()
    } else {
        json_escape_char(s[0]) + spec_json_escape(s.drop_first())
    }
}

/// Escaping one more character appends its escaped form.
proof fn lemma_json_escape_snoc(s: Seq<char>, c: char)
    ensures
        spec_json_escape(s.push(c)) == spec_json_escape(s) + json_escape_char(c),
    decreases s.len(),
{
    let p = s.push(c);
    if s.len() == 0 {
        assert(p.drop_first() =~= Seq::<char>::empty());
        assert(p[0] == c);
        assert(spec_json_escape(p) == json_escape_char(p[0]) + spec_json_escape(p.drop_first()));
        assert(spec_json_escape(p.drop_first()) == Seq::<char>::empty());
        assert(spec_json_escape(s) == Seq::<char>::empty());
        assert(spec_json_escape(p) =~= spec_json_escape(s) + json_escape_char(c));
    } else {
        assert(p.drop_first() =~= s.drop_first().push(c));
        assert(p[0] == s[0]);
        assert(spec_json_escape(p) == json_escape_char(p[0]) + spec_json_escape(p.drop_first()));
        lemma_json_escape_snoc(s.drop_first(), c);
        assert(spec_json_escape(s) == json_escape_char(s[0]) + spec_json_escape(s.drop_first()));
        assert(spec_json_escape(p) =~= spec_json_escape(s) + json_escape_char(c));
    }
}

/// Escape a text as a JSON string body.
fn json_escape(s: &str) -> (r: Vec<char>)
    ensures
        r@ == spec_json_escape(s@),
{
    let v = crate::text::str_to_chars(s);
    let n = v.len();
    let mut out: Vec<char> = Vec::new();
    let mut i: usize = 0;
    proof {
        assert(v@.take(0) =~= Seq::<char>::empty());
    }
    while i < n
        invariant
            n == v@.len(),
            i <= n,
            out@ == spec_json_escape(v@.take(i as int)),
        decreases n - i,
    {
        proof {
            assert(v@.take(i + 1) =~= v@.take(i as int).push(v@[i as int]));
            lemma_json_escape_snoc(v@.take(i as int), v@[i as int]);
        }
        let c = v[i];
        let ghost before = out@;
        if c == '"' {
            out.push('\\');
            out.push('"');
        } else if c == '\\' {
            out.push('\\');
            out.push('\\');
        } else if c == '\n' {
            out.push('\\');
            out.push('n');
        } else if c == '\r' {
            out.push('\\');
            out.push('r');
        } else if c == '\t' {
            out.push('\\');
            out.push('t');
        } else if (c as u32) < 0x20 {
            let u = c as u32;
            out.push('\\');
            out.push('u');
            out.push('0');
            out.push('0');
            out.push(hex_digit((u / 16) as u8));
            out.push(hex_digit((u % 16) as u8));
        } else {
            out.push(c);
        }
        i = i + 1;
        proof {
            assert(out@ =~= before + json_escape_char(v@[i - 1]));
        }
    }
    proof {
        assert(v@.take(n as int) =~= v@);
    }
    out
}

/// One lowercase hexadecimal digit.
fn hex_digit(d: u8) -> (r: char)
    requires
        d < 16,
    ensures
        r == hex_char(d as int),
{
    if d < 10 {
        ((48 + d) as u8) as char
    } else {
        ((87 + d) as u8) as char
    }
}

/// A signed integer in decimal.
pub open spec fn spec_int_text(i: int) -> Seq<char> {
    if i < 0 {
        "-"@ + crate::text::dec_digits(-i)
    } else {
        crate::text::dec_digits(i)
    }
}

/// Render a signed integer in decimal.
pub fn int_text(n: i64) -> (r: String)
    ensures
        r@ == spec_int_text(n as int),
{
    if n >= 0 {
        let s = crate::text::u64_to_string(n as u64);
        proof {
            assert((n as u64) as int == n as int);
        }
        s
    } else {
        let magnitude: u64 = if n == i64::MIN {
            9223372036854775808u64
        } else {
            (-n) as u64
        };
        proof {
            assert(magnitude as int == -(n as int));
        }
        let mut s = String::new();
        s.append("-");
        let digits = crate::text::u64_to_string(magnitude);
        s.append(digits.as_str());
        s
    }
}

/// The compact JSON rendering of a value.
pub open spec fn spec_json_text(v: JsonValue) -> Seq<char>
    decreases v, 0int,
{
    match v {
        JsonValue::Null => "null"@,
        JsonValue::Bool(b) => if b {
            "true"@
        } else {
            "false"@
        },
        JsonValue::Int(i) => spec_int_text(i as int),
        JsonValue::Text(s) => "\""@ + spec_json_escape(s@) + "\""@,
        JsonValue::Array(items) => "["@ + spec_json_list(items@, 0) + "]"@,
        JsonValue::Object(fields) => "{"@ + spec_json_members(fields@, 0) + "}"@,
    }
}

/// The comma-separated renderings of an array's elements, from position
/// `i` on.
pub open spec fn spec_json_list(items: Seq<JsonValue>, i: int) -> Seq<char>
    decreases items, items.len() - i,
{
    if i < 0 || i >= items.len() {
        Seq::empty()
    } else {
        (if i > 0 {
            ","@
        } else {
            Seq::empty()
        }) + spec_json_text(items[i]) + spec_json_list(items, i + 1)
    }
}

/// The comma-separated renderings of an object's members, from position
/// `i` on.
pub open spec fn spec_json_members(fields: Seq<(String, JsonValue)>, i: int) -> Seq<char>
    decreases fields, fields.len() - i,
{
    if i < 0 || i >= fields.len() {
        Seq::empty()
    } else {
        (if i > 0 {
            ","@
        } else {
            Seq::empty()
        }) + "\""@ + spec_json_escape(fields[i].0@) + "\":"@ + spec_json_text(fields[i].1)
            + spec_json_members(fields, i + 1)
    }
}

/// Render a value as compact JSON text.
pub fn json_text(v: &JsonValue) -> (r: String)
    ensures
        r@ == spec_json_text(*v),
    decreases *v,
{
    match v {
        JsonValue::Null => "null".to_owned(),
        JsonValue::Bool(b) => {
            if *b {
                "true".to_owned()
            } else {
                "false".to_owned()
            }
        },
        JsonValue::Int(i) => int_text(*i),
        JsonValue::Text(s) => {
            let mut out = String::new();
            out.append("\"");
            let body = json_escape(s.as_str());
            let body_text = crate::text::chars_to_string(&body);
            out.append(body_text.as_str());
            out.append("\"");
            out
        },
        JsonValue::Array(items) => {
            let n = items.len();
            let mut out = String::new();
            out.append("[");
            let mut k: usize = 0;
            while k < n
                invariant
                    n == items@.len(),
                    k <= n,
                    *v == JsonValue::Array(*items),
                    out@ + spec_json_list(items@, k as int) == "["@ + spec_json_list(items@, 0),
                decreases n - k,
            {
                if k > 0 {
                    out.append(",");
                }
                proof {
                    assert((*v)->Array_0 == *items);
                    assert(decreases_to!(*v => (*v)->Array_0));
                    assert(decreases_to!(*items => items@));
                    assert(decreases_to!(items@ => items@[k as int]));
                }
                let piece = json_text(&items[k]);
                out.append(piece.as_str());
                k = k + 1;
            }
            out.append("]");
            out
        },
        JsonValue::Object(fields) => {
            let n = fields.len();
            let mut out = String::new();
            out.append("{");
            let mut k: usize = 0;
            while k < n
                invariant
                    n == fields@.len(),
                    k <= n,
                    *v == JsonValue::Object(*fields),
                    out@ + spec_json_members(fields@, k as int) == "{"@ + spec_json_members(
                        fields@,
                        0,
                    ),
                decreases n - k,
            {
                if k > 0 {
                    out.append(",");
                }
                out.append("\"");
                let key = json_escape(fields[k].0.as_str());
                let key_text = crate::text::chars_to_string(&key);
                out.append(key_text.as_str());
                out.append("\":");
                proof {
                    assert((*v)->Object_0 == *fields);
                    assert(decreases_to!(*v => (*v)->Object_0));
                    assert(decreases_to!(*fields => fields@));
                    assert(decreases_to!(fields@ => fields@[k as int]));
                    assert(decreases_to!(fields@[k as int] => fields@[k as int].1));
                }
                let piece = json_text(&fields[k].1);
                out.append(piece.as_str());
                k = k + 1;
            }
            out.append("}");
            out
        },
    }
}

/// What kind of host call JavaScript requested.
#[derive(Debug, Clone, PartialEq, Eq)]
pub enum HostcallKind {
    /// Invoke a named tool.
    Tool { name: String },
    /// Execute a shell command.
    Exec { cmd: String },
    /// Make an HTTP request.
    Http,
    /// A session operation.
    Session { op: String },
    /// A UI operation.
    Ui { op: String },
    /// An event operation.
    Events { op: String },
}

/// A host call enqueued from JavaScript, awaiting dispatch.
#[derive(Debug)]
pub struct HostcallRequest {
    /// Correlates the outcome with the registered resolvers.
    pub call_id: String,
    /// What is being asked for.
    pub kind: HostcallKind,
    /// Structured payload for the host.
    pub payload: JsonValue,
    /// Correlates the request with the macrotask that completes it.
    pub trace_id: u64,
}

/// The resolver pair registered under a call id.
pub open spec fn spec_resolver_lookup<R>(entries: Seq<(String, R)>, id: Seq<char>) -> Option<R>
    decreases entries.len(),
{
    if entries.len() == 0 {
        None
    } else if entries.last().0@ == id {
        Some(entries.last().1)
    } else {
        spec_resolver_lookup(entries.drop_last(), id)
    }
}

/// The call ids are pairwise distinct.
pub open spec fn distinct_ids<R>(entries: Seq<(String, R)>) -> bool {
    forall|i: int, j: int| 0 <= i < j < entries.len() ==> entries[i].0@ != entries[j].0@
}

/// An id held by no entry answers to nothing.
proof fn lemma_lookup_absent<R>(entries: Seq<(String, R)>, id: Seq<char>)
    requires
        forall|j: int| 0 <= j < entries.len() ==> entries[j].0@ != id,
    ensures
        spec_resolver_lookup(entries, id) is None,
    decreases entries.len(),
{
    if entries.len() > 0 {
        assert(forall|j: int|
            0 <= j < entries.len() - 1 ==> entries.drop_last()[j].0@ != id);
        lemma_lookup_absent(entries.drop_last(), id);
    }
}

/// With distinct ids, a lookup finds the entry that holds the id.
proof fn lemma_lookup_at<R>(entries: Seq<(String, R)>, i: int, id: Seq<char>)
    requires
        distinct_ids(entries),
        0 <= i < entries.len(),
        entries[i].0@ == id,
    ensures
        spec_resolver_lookup(entries, id) == Some(entries[i].1),
    decreases entries.len(),
{
    if i == entries.len() - 1 {
        assert(entries.last() == entries[i]);
    } else {
        assert(entries.last().0@ != id);
        let d = entries.drop_last();
        assert(forall|a: int, b: int|
            0 <= a < b < d.len() ==> d[a].0@ != d[b].0@) by {
            assert(forall|a: int| 0 <= a < d.len() ==> d[a] == entries[a]);
        }
        lemma_lookup_at(d, i, id);
    }
}

/// Removing the entry that holds an id empties that id's lookup and
/// leaves every other lookup alone.
proof fn lemma_lookup_remove<R>(entries: Seq<(String, R)>, i: int, k: Seq<char>)
    requires
        distinct_ids(entries),
        0 <= i < entries.len(),
    ensures
        spec_resolver_lookup(entries.remove(i), k) == if k == entries[i].0@ {
            None::<R>
        } else {
            spec_resolver_lookup(entries, k)
        },
{
    let removed = entries.remove(i);
    assert(forall|j: int|
        0 <= j < removed.len() ==> removed[j] == (if j < i {
            entries[j]
        } else {
            entries[j + 1]
        }));
    if k == entries[i].0@ {
        assert(forall|j: int| 0 <= j < removed.len() ==> removed[j].0@ != k);
        lemma_lookup_absent(removed, k);
    } else if exists|j: int| 0 <= j < entries.len() && #[trigger] entries[j].0@ == k {
        let j = choose|j: int| 0 <= j < entries.len() && #[trigger] entries[j].0@ == k;
        lemma_lookup_at(entries, j, k);
        assert(distinct_ids(removed));
        if j < i {
            assert(removed[j] == entries[j]);
            lemma_lookup_at(removed, j, k);
        } else {
            assert(removed[j - 1] == entries[j]);
            lemma_lookup_at(removed, j - 1, k);
        }
    } else {
        assert(forall|j: int| 0 <= j < entries.len() ==> entries[j].0@ != k);
        lemma_lookup_absent(entries, k);
        assert(forall|j: int| 0 <= j < removed.len() ==> removed[j].0@ != k);
        lemma_lookup_absent(removed, k);
    }
}

/// Replacing the entry that holds an id changes that id's lookup to the
/// new resolvers and leaves every other lookup alone.
proof fn lemma_lookup_update<R>(entries: Seq<(String, R)>, i: int, e: (String, R), k: Seq<char>)
    requires
        distinct_ids(entries),
        0 <= i < entries.len(),
        e.0@ == entries[i].0@,
    ensures
        spec_resolver_lookup(entries.update(i, e), k) == if k == e.0@ {
            Some(e.1)
        } else {
            spec_resolver_lookup(entries, k)
        },
{
    let updated = entries.update(i, e);
    assert(distinct_ids(updated));
    if k == e.0@ {
        lemma_lookup_at(updated, i, k);
    } else if exists|j: int| 0 <= j < entries.len() && #[trigger] entries[j].0@ == k {
        let j = choose|j: int| 0 <= j < entries.len() && #[trigger] entries[j].0@ == k;
        lemma_lookup_at(entries, j, k);
        assert(updated[j] == entries[j]);
        lemma_lookup_at(updated, j, k);
    } else {
        assert(forall|j: int| 0 <= j < entries.len() ==> entries[j].0@ != k);
        lemma_lookup_absent(entries, k);
        assert(forall|j: int| 0 <= j < updated.len() ==> updated[j].0@ != k);
        lemma_lookup_absent(updated, k);
    }
}

/// The table that pairs each in-flight host call with its promise
/// resolvers, one entry per call id. Registering under an id already
/// present replaces its resolvers; completing an id removes its entry, so
/// each call is answered at most once.
#[derive(Debug)]
pub struct PendingHostcalls<R> {
    pending: Vec<(String, R)>,
    next_id: u64,
}

impl<R> PendingHostcalls<R> {
    /// One entry per call id.
    pub closed spec fn wf(&self) -> bool {
        distinct_ids(self.pending@)
    }

    /// The resolvers registered under this id, if any.
    pub closed spec fn spec_get(&self, id: Seq<char>) -> Option<R> {
        spec_resolver_lookup(self.pending@, id)
    }

    /// How many calls are in flight.
    pub closed spec fn spec_len(&self) -> nat {
        self.pending@.len()
    }

    /// The counter the next call id is minted from.
    pub closed spec fn spec_next_id(&self) -> u64 {
        self.next_id
    }

    /// An empty table; call ids start at one.
    pub fn new() -> (r: Self)
        ensures
            r.wf(),
            forall|id: Seq<char>| #[trigger] r.spec_get(id) is None,
            r.spec_len() == 0,
            r.spec_next_id() == 1,
    {
        PendingHostcalls { pending: Vec::new(), next_id: 1 }
    }

    /// Mint a fresh call id of the form `call-<n>`; the counter sticks at
    /// its maximum rather than wrapping.
    pub fn next_call_id(&mut self) -> (r: String)
        ensures
            r@ == "call-"@ + crate::text::dec_digits(old(self).spec_next_id() as int),
            final(self).spec_next_id() == if old(self).spec_next_id() < u64::MAX {
                (old(self).spec_next_id() + 1) as u64
            } else {
                u64::MAX
            },
            forall|id: Seq<char>| #[trigger] final(self).spec_get(id) == old(self).spec_get(id),
            final(self).spec_len() == old(self).spec_len(),
            final(self).wf() == old(self).wf(),
    {
        let n = self.next_id;
        if self.next_id < u64::MAX {
            self.next_id = self.next_id + 1;
        }
        let digits = crate::text::u64_to_chars(n);
        let mut id = String::new();
        id.append("call-");
        let tail = chars_to_string(&digits);
        id.append(tail.as_str());
        id
    }

    /// The position of the entry holding an id, if any.
    fn find(&self, call_id: &str) -> (r: Option<usize>)
        requires
            self.wf(),
        ensures
            match r {
                Some(i) => i < self.spec_len() && self.pending@[i as int].0@ == call_id@
                    && self.spec_get(call_id@) == Some(self.pending@[i as int].1),
                None => (forall|j: int|
                    0 <= j < self.spec_len() ==> self.pending@[j].0@ != call_id@) && self.spec_get(
                    call_id@,
                ) is None,
            },
    {
        let n = self.pending.len();
        let mut i: usize = 0;
        while i < n
            invariant
                n == self.pending@.len(),
                distinct_ids(self.pending@),
                i <= n,
                forall|k: int| 0 <= k < i ==> self.pending@[k].0@ != call_id@,
            decreases n - i,
        {
            if str_eq(self.pending[i].0.as_str(), call_id) {
                proof {
                    lemma_lookup_at(self.pending@, i as int, call_id@);
                }
                return Some(i);
            }
            i = i + 1;
        }
        proof {
            lemma_lookup_absent(self.pending@, call_id@);
        }
        None
    }

    /// Register the resolvers for a call id. A fresh id is appended; an id
    /// already present has its resolvers replaced in place, and the table
    /// does not grow.
    pub fn register(&mut self, call_id: String, resolver: R)
        requires
            old(self).wf(),
        ensures
            final(self).wf(),
            final(self).spec_get(call_id@) == Some(resolver),
            forall|id: Seq<char>|
                id != call_id@ ==> #[trigger] final(self).spec_get(id) == old(self).spec_get(id),
            final(self).spec_len() == if old(self).spec_get(call_id@) is Some {
                old(self).spec_len() as int
            } else {
                old(self).spec_len() + 1int
            },
            final(self).spec_next_id() == old(self).spec_next_id(),
    {
        let ghost entry = (call_id, resolver);
        match self.find(call_id.as_str()) {
            Some(i) => {
                let _ = self.pending.remove(i);
                self.pending.insert(i, (call_id, resolver));
                proof {
                    assert(self.pending@ =~= old(self).pending@.update(i as int, entry));
                    assert(distinct_ids(self.pending@));
                    assert forall|id: Seq<char>| true implies #[trigger] self.spec_get(id) == (
                        if id == entry.0@ {
                            Some(entry.1)
                        } else {
                            old(self).spec_get(id)
                        }) by {
                        lemma_lookup_update(old(self).pending@, i as int, entry, id);
                    }
                }
            },
            None => {
                self.pending.push((call_id, resolver));
                proof {
                    assert(self.pending@.drop_last() =~= old(self).pending@);
                    assert forall|a: int, b: int|
                        0 <= a < b < self.pending@.len() implies self.pending@[a].0@
                        != self.pending@[b].0@ by {
                        if b < self.pending@.len() - 1 {
                            assert(old(self).pending@[a].0@ != old(self).pending@[b].0@);
                        } else {
                            assert(self.pending@[b] == entry);
                            assert(old(self).pending@[a].0@ != entry.0@);
                        }
                    }
                }
            },
        }
    }

    /// Take the resolvers for a call id, removing its entry: after this
    /// the id answers to nothing, so a second completion for the same call
    /// finds no resolvers.
    pub fn complete(&mut self, call_id: &str) -> (r: Option<R>)
        requires
            old(self).wf(),
        ensures
            final(self).wf(),
            r == old(self).spec_get(call_id@),
            forall|id: Seq<char>|
                #[trigger] final(self).spec_get(id) == if id == call_id@ {
                    None::<R>
                } else {
                    old(self).spec_get(id)
                },
            final(self).spec_len() == if old(self).spec_get(call_id@) is Some {
                old(self).spec_len() - 1
            } else {
                old(self).spec_len() as int
            },
            final(self).spec_next_id() == old(self).spec_next_id(),
    {
        match self.find(call_id) {
            Some(i) => {
                let entry = self.pending.remove(i);
                proof {
                    assert(distinct_ids(self.pending@)) by {
                        assert(forall|j: int|
                            0 <= j < self.pending@.len() ==> self.pending@[j] == (if j < i {
                                old(self).pending@[j]
                            } else {
                                old(self).pending@[j + 1]
                            }));
                    }
                    assert forall|id: Seq<char>| true implies #[trigger] self.spec_get(id) == (
                        if id == call_id@ {
                            None::<R>
                        } else {
                            old(self).spec_get(id)
                        }) by {
                        lemma_lookup_remove(old(self).pending@, i as int, id);
                    }
                }
                Some(entry.1)
            },
            None => None,
        }
    }

    /// Take the resolvers for a cancelled call, exactly as a completion
    /// does; the caller rejects the promise instead of resolving it.
    pub fn cancel(&mut self, call_id: &str) -> (r: Option<R>)
        requires
            old(self).wf(),
        ensures
            final(self).wf(),
            r == old(self).spec_get(call_id@),
            forall|id: Seq<char>|
                #[trigger] final(self).spec_get(id) == if id == call_id@ {
                    None::<R>
                } else {
                    old(self).spec_get(id)
                },
            final(self).spec_len() == if old(self).spec_get(call_id@) is Some {
                old(self).spec_len() - 1
            } else {
                old(self).spec_len() as int
            },
            final(self).spec_next_id() == old(self).spec_next_id(),
    {
        self.complete(call_id)
    }

    /// How many calls are in flight.
    pub fn len(&self) -> (r: usize)
        ensures
            r == self.spec_len(),
    {
        self.pending.len()
    }

    /// Whether no calls are in flight.
    pub fn is_empty(&self) -> (r: bool)
        ensures
            r == (self.spec_len() == 0),
    {
        self.pending.len() == 0
    }

    /// The in-flight call ids, in registration order, each exactly once.
    pub fn pending_ids(&self) -> (r: Vec<String>)
        requires
            self.wf(),
        ensures
            r@.len() == self.spec_len(),
            forall|k: int|
                0 <= k < r@.len() ==> #[trigger] r@[k]@ == self.spec_key_at(k),
            forall|k: int, l: int| 0 <= k < l < r@.len() ==> r@[k]@ != r@[l]@,
    {
        let n = self.pending.len();
        let mut r: Vec<String> = Vec::new();
        let mut i: usize = 0;
        while i < n
            invariant
                n == self.pending@.len(),
                i <= n,
                r@.len() == i,
                forall|k: int| 0 <= k < i ==> #[trigger] r@[k]@ == self.pending@[k].0@,
            decreases n - i,
        {
            r.push(self.pending[i].0.clone());
            i = i + 1;
        }
        r
    }

    /// The id at one position of the registration order.
    pub closed spec fn spec_key_at(&self, k: int) -> Seq<char> {
        self.pending@[k].0@
    }
}

} // verus!

//! Typed lifecycle events and the aggregation of handler responses.
//!
//! Events go out to every registered handler in registration order; what
//! comes back is folded by fixed rules: the first block wins for tool calls
//! and input, rewrites to tool results compose in order with unchanged
//! fields surviving, and any cancellation cancels a session switch or fork.

use vstd::prelude::*;
use crate::hostcall::JsonValue;
use crate::model::{AssistantMessage, ContentBlock, ImageContent, Message, ToolResultMessage};

verus! {

/// The budget, in milliseconds, an event handler gets by default.
pub const EXTENSION_EVENT_TIMEOUT_MS: u64 = 5000;

/// Events that can be dispatched to extension handlers; the wire name of
/// each is its variant in snake case.
#[derive(Debug)]
pub enum ExtensionEvent {
    /// Agent startup, once per session.
    Startup { version: String, session_file: Option<String> },
    /// Before the first API call in a run.
    AgentStart { session_id: String },
    /// After the agent loop ends.
    AgentEnd { session_id: String, messages: Vec<Message>, error: Option<String> },
    /// Before a provider call.
    TurnStart { session_id: String, turn_index: usize },
    /// After a response is processed.
    TurnEnd {
        session_id: String,
        turn_index: usize,
        message: AssistantMessage,
        tool_results: Vec<ToolResultMessage>,
    },
    /// Before tool execution; a handler may block it.
    ToolCall { tool_name: String, tool_call_id: String, input: JsonValue },
    /// After tool execution; a handler may rewrite the result.
    ToolResult {
        tool_name: String,
        tool_call_id: String,
        input: JsonValue,
        content: Vec<ContentBlock>,
        details: Option<JsonValue>,
        is_error: bool,
    },
    /// Before a session switch; a handler may cancel it.
    SessionBeforeSwitch { current_session: Option<String>, target_session: String },
    /// Before a session fork; a handler may cancel it.
    SessionBeforeFork { current_session: Option<String>, fork_entry_id: String },
    /// Before user input is processed; a handler may block or transform it.
    Input { content: String, attachments: Vec<ImageContent> },
}

/// The wire name of each event.
pub open spec fn spec_event_name(e: &ExtensionEvent) -> Seq<char> {
    match e {
        ExtensionEvent::Startup { .. } => "startup"@,
        ExtensionEvent::AgentStart { .. } => "agent_start"@,
        ExtensionEvent::AgentEnd { .. } => "agent_end"@,
        ExtensionEvent::TurnStart { .. } => "turn_start"@,
        ExtensionEvent::TurnEnd { .. } => "turn_end"@,
        ExtensionEvent::ToolCall { .. } => "tool_call"@,
        ExtensionEvent::ToolResult { .. } => "tool_result"@,
        ExtensionEvent::SessionBeforeSwitch { .. } => "session_before_switch"@,
        ExtensionEvent::SessionBeforeFork { .. } => "session_before_fork"@,
        ExtensionEvent::Input { .. } => "input"@,
    }
}

impl ExtensionEvent {
    /// Get the event name for dispatch.
    pub fn event_name(&self) -> (r: &'static str)
        ensures
            r@ == spec_event_name(self),
    {
        match self {
            ExtensionEvent::Startup { .. } => "startup",
            ExtensionEvent::AgentStart { .. } => "agent_start",
            ExtensionEvent::AgentEnd { .. } => "agent_end",
            ExtensionEvent::TurnStart { .. } => "turn_start",
            ExtensionEvent::TurnEnd { .. } => "turn_end",
            ExtensionEvent::ToolCall { .. } => "tool_call",
            ExtensionEvent::ToolResult { .. } => "tool_result",
            ExtensionEvent::SessionBeforeSwitch { .. } => "session_before_switch",
            ExtensionEvent::SessionBeforeFork { .. } => "session_before_fork",
            ExtensionEvent::Input { .. } => "input",
        }
    }
}

/// A handler's answer to a `tool_call` event.
#[derive(Debug, PartialEq, Eq)]
pub struct ToolCallEventResult {
    /// If true, block tool execution.
    pub block: bool,
    /// Reason for blocking, shown to the user.
    pub reason: Option<String>,
}

impl Default for ToolCallEventResult {
    /// A response that neither blocks nor gives a reason.
    fn default() -> (r: Self)
        ensures
            !r.block,
            r.reason is None,
    {
        ToolCallEventResult { block: false, reason: None }
    }
}

/// A handler's answer to a `tool_result` event; absent fields leave the
/// original untouched.
#[derive(Debug)]
pub struct ToolResultEventResult {
    /// Replacement content, if any.
    pub content: Option<Vec<ContentBlock>>,
    /// Replacement details, if any.
    pub details: Option<JsonValue>,
}

/// A handler's answer to an `input` event.
#[derive(Debug, PartialEq, Eq)]
pub struct InputEventResult {
    /// Replacement content, if any.
    pub content: Option<String>,
    /// If true, block processing.
    pub block: bool,
    /// Reason for blocking.
    pub reason: Option<String>,
}

/// A handler's answer to a session switch or fork event.
#[derive(Debug, Clone, Copy, PartialEq, Eq, Structural)]
pub struct SessionGuardResult {
    /// If true, cancel the switch or fork.
    pub cancel: bool,
}

/// Fan-in of handler responses for one event, in registration order.
#[derive(Debug)]
pub struct EventDispatcher {
}

impl EventDispatcher {
    /// A dispatcher; the engine-side delivery is the caller's, the folding
    /// rules are here.
    pub fn new() -> (r: Self) {
        EventDispatcher {  }
    }

    /// The first blocking response to a `tool_call` event, if any: that
    /// handler's verdict stands and the tool is blocked with its reason.
    pub fn aggregate_tool_call<'a>(
        &self,
        responses: &'a Vec<Option<ToolCallEventResult>>,
    ) -> (r: Option<&'a ToolCallEventResult>)
        ensures
            match r {
                Some(b) => b.block && exists|i: int|
                    0 <= i < responses@.len() && ((#[trigger] responses@[i]) matches Some(q)
                        && q.block && q == *b) && (forall|j: int|
                        0 <= j < i ==> !((#[trigger] responses@[j]) matches Some(p) && p.block)),
                None => forall|i: int|
                    0 <= i < responses@.len() ==> !((#[trigger] responses@[i]) matches Some(q)
                        && q.block),
            },
    {
        let n = responses.len();
        let mut i: usize = 0;
        while i < n
            invariant
                n == responses@.len(),
                i <= n,
                forall|j: int|
                    0 <= j < i ==> !((#[trigger] responses@[j]) matches Some(p) && p.block),
            decreases n - i,
        {
            match &responses[i] {
                Some(r) => {
                    if r.block {
                        return Some(r);
                    }
                },
                None => {},
            }
            i = i + 1;
        }
        None
    }

    /// One rewrite applied to a tool result: a field the handler set
    /// replaces the original, a field it left out survives unchanged.
    pub fn apply_tool_result_rewrite(
        &self,
        content: Vec<ContentBlock>,
        details: Option<JsonValue>,
        rewrite: ToolResultEventResult,
    ) -> (r: (Vec<ContentBlock>, Option<JsonValue>))
        ensures
            r.0 == match rewrite.content {
                Some(c) => c,
                None => content,
            },
            r.1 == match rewrite.details {
                Some(d) => Some(d),
                None => details,
            },
    {
        let new_content = match rewrite.content {
            Some(c) => c,
            None => content,
        };
        let new_details = match rewrite.details {
            Some(d) => Some(d),
            None => details,
        };
        (new_content, new_details)
    }

    /// Whether an `input` event is blocked: the first non-null response
    /// with `block` set decides.
    pub fn input_blocked(&self, responses: &Vec<Option<InputEventResult>>) -> (r: bool)
        ensures
            r == exists|i: int|
                0 <= i < responses@.len() && ((#[trigger] responses@[i]) matches Some(q)
                    && q.block),
    {
        let n = responses.len();
        let mut i: usize = 0;
        while i < n
            invariant
                n == responses@.len(),
                i <= n,
                forall|j: int|
                    0 <= j < i ==> !((#[trigger] responses@[j]) matches Some(p) && p.block),
            decreases n - i,
        {
            match &responses[i] {
                Some(r) => {
                    if r.block {
                        return true;
                    }
                },
                None => {},
            }
            i = i + 1;
        }
        false
    }

    /// The content an unblocked `input` event proceeds with: the last
    /// non-null content override, or the original input.
    pub fn input_content<'a>(
        &self,
        original: &'a str,
        responses: &'a Vec<Option<InputEventResult>>,
    ) -> (r: &'a str)
        ensures
            exists|i: int|
                (#[trigger] spec_input_content_at(responses@, i)) && ((i < 0 && r@ == original@)
                    || (0 <= i < responses@.len() && (responses@[i] matches Some(q) && q.content
                    matches Some(c) && r@ == c@))),
    {
        let n = responses.len();
        let mut i: usize = n;
        while i > 0
            invariant
                n == responses@.len(),
                i <= n,
                forall|j: int|
                    i <= j < n ==> !((#[trigger] responses@[j]) matches Some(p) && p.content
                        is Some),
            decreases i,
        {
            match &responses[i - 1] {
                Some(r) => {
                    match &r.content {
                        Some(c) => {
                            proof {
                                assert(spec_input_content_at(responses@, i - 1));
                            }
                            return c.as_str();
                        },
                        None => {},
                    }
                },
                None => {},
            }
            i = i - 1;
        }
        proof {
            assert(spec_input_content_at(responses@, -1));
        }
        original
    }

    /// Whether a session switch or fork is cancelled: any cancelling
    /// response cancels.
    pub fn session_cancelled(&self, responses: &Vec<Option<SessionGuardResult>>) -> (r: bool)
        ensures
            r == exists|i: int|
                0 <= i < responses@.len() && ((#[trigger] responses@[i]) matches Some(q)
                    && q.cancel),
    {
        let n = responses.len();
        let mut i: usize = 0;
        while i < n
            invariant
                n == responses@.len(),
                i <= n,
                forall|j: int|
                    0 <= j < i ==> !((#[trigger] responses@[j]) matches Some(p) && p.cancel),
            decreases n - i,
        {
            match &responses[i] {
                Some(r) => {
                    if r.cancel {
                        return true;
                    }
                },
                None => {},
            }
            i = i + 1;
        }
        false
    }
}

/// Position `i` is where the input content comes from: either a response
/// with a content override and none later, or before the start with no
/// override anywhere.
pub open spec fn spec_input_content_at(rs: Seq<Option<InputEventResult>>, i: int) -> bool {
    &&& -1 <= i < rs.len()
    &&& (i >= 0 ==> (rs[i] matches Some(q) && q.content is Some))
    &&& forall|j: int| i < j < rs.len() ==> !((#[trigger] rs[j]) matches Some(p) && p.content is Some)
}

} // verus!

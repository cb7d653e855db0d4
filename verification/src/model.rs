//! Message and content types shared by sessions, tools, and lifecycle
//! events.

use vstd::prelude::*;
use crate::hostcall::JsonValue;

verus! {

/// A block of text content.
#[derive(Debug)]
pub struct TextContent {
    pub text: String,
}

impl TextContent {
    /// A text block with the given text.
    pub fn new(text: String) -> (r: Self)
        ensures
            r.text == text,
    {
        TextContent { text }
    }
}

/// A block of model thinking.
#[derive(Debug)]
pub struct ThinkingContent {
    pub thinking: String,
}

/// An inline image, base64-encoded.
#[derive(Debug)]
pub struct ImageContent {
    pub data: String,
    pub mime_type: String,
}

/// A tool invocation requested by the model.
#[derive(Debug)]
pub struct ToolCallContent {
    pub id: String,
    pub name: String,
    pub arguments: JsonValue,
}

/// One block of message content.
#[derive(Debug)]
pub enum ContentBlock {
    Text(TextContent),
    Thinking(ThinkingContent),
    Image(ImageContent),
    ToolCall(ToolCallContent),
}

/// What a user message carries: plain text or structured blocks.
#[derive(Debug)]
pub enum UserContent {
    Text(String),
    Blocks(Vec<ContentBlock>),
}

/// A user message.
#[derive(Debug)]
pub struct UserMessage {
    pub content: UserContent,
    pub timestamp: i64,
}

/// An assistant message.
#[derive(Debug)]
pub struct AssistantMessage {
    pub content: Vec<ContentBlock>,
}

/// A tool result message.
#[derive(Debug)]
pub struct ToolResultMessage {
    pub tool_call_id: String,
    pub tool_name: String,
    pub content: Vec<ContentBlock>,
    pub details: Option<JsonValue>,
    pub is_error: bool,
    pub timestamp: i64,
}

/// One conversation message.
#[derive(Debug)]
pub enum Message {
    User(UserMessage),
    Assistant(AssistantMessage),
    ToolResult(ToolResultMessage),
}

/// What a tool hands back: content blocks and optional details.
#[derive(Debug)]
pub struct ToolOutput {
    pub content: Vec<ContentBlock>,
    pub details: Option<JsonValue>,
}

/// An incremental update during tool execution.
#[derive(Debug)]
pub struct ToolUpdate {
    pub content: Vec<ContentBlock>,
    pub details: Option<JsonValue>,
}

} // verus!

//! The vendor-neutral request model: what a caller hands to the translator.

use vstd::prelude::*;

verus! {

/// Role of a message in the neutral conversation model.
#[derive(Clone, Copy, PartialEq, Eq, Structural, Debug)]
pub enum Role {
    System,
    User,
    Assistant,
}

/// What a tool handed back: plain text, or an image (kept as its base64
/// source). The provider cannot take images in tool results, so the
/// translator substitutes a fixed textual placeholder for the latter.
#[derive(Clone, Debug)]
pub enum ToolResultContent {
    Text(String),
    Image(String),
}

/// A tool invocation requested by the assistant. `input` holds the
/// JSON-encoded argument text for the call.
#[derive(Clone, Debug)]
pub struct ToolUseRequest {
    pub id: String,
    pub name: String,
    pub input: String,
}

/// The outcome of a tool invocation, attached to a later message.
#[derive(Clone, Debug)]
pub struct ToolResultRequest {
    pub tool_use_id: String,
    pub content: ToolResultContent,
}

/// One content part of a neutral message.
#[derive(Clone, Debug)]
pub enum MessageContent {
    Text(String),
    /// "Thinking" text; this provider treats it as plain text.
    Thinking(String),
    /// Redacted thinking; dropped for this provider.
    RedactedThinking(String),
    /// An image, kept as its base64 source (without the data-URL prefix).
    Image(String),
    ToolUse(ToolUseRequest),
    ToolResult(ToolResultRequest),
}

/// One neutral message: a role and an ordered list of content parts.
#[derive(Clone, Debug)]
pub struct Message {
    pub role: Role,
    pub content: Vec<MessageContent>,
    pub cache: bool,
}

/// The caller's tool-choice policy.
#[derive(Clone, Copy, PartialEq, Eq, Structural, Debug)]
pub enum ToolChoice {
    Auto,
    Any,
    /// Forbid tool calls; the wire value is `"none"`.
    NoTool,
}

/// A tool the model may call. `input_schema` holds the JSON text of the
/// tool's input schema.
#[derive(Clone, Debug)]
pub struct ToolDefinition {
    pub name: String,
    pub description: String,
    pub input_schema: String,
}

/// A vendor-neutral completion request.
///
/// `temperature` is measured in thousandths (500 stands for 0.5), so that
/// the whole request is made of plain values; the boundary that speaks JSON
/// converts it to a number.
#[derive(Clone, Debug)]
pub struct Request {
    pub messages: Vec<Message>,
    pub temperature: Option<u32>,
    pub tools: Vec<ToolDefinition>,
    pub tool_choice: Option<ToolChoice>,
}

} // verus!

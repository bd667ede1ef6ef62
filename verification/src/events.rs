//! The vendor-neutral events the mapper emits, with their ghost views.

use vstd::prelude::*;
use vstd::string::StringExecFns;

verus! {

/// Why the model stopped generating.
#[derive(Clone, Copy, PartialEq, Eq, Structural, Debug)]
pub enum StopReason {
    EndTurn,
    ToolUse,
}

/// Token totals. This provider reports no cache counters, so the mapper
/// fixes those at zero.
#[derive(Clone, Copy, PartialEq, Eq, Structural, Debug)]
pub struct TokenUsage {
    pub input_tokens: u64,
    pub output_tokens: u64,
    pub cache_creation_input_tokens: u64,
    pub cache_read_input_tokens: u64,
}

/// A completed tool call: the argument text parsed as JSON, plus the raw
/// text it was parsed from.
#[derive(Debug)]
pub struct ToolUseEvent {
    pub id: String,
    pub name: String,
    pub is_input_complete: bool,
    pub input: serde_json::Value,
    pub raw_input: String,
}

/// One vendor-neutral event reassembled from the stream.
#[derive(Debug)]
pub enum CompletionEvent {
    Text(String),
    UsageUpdate(TokenUsage),
    ToolUse(ToolUseEvent),
    /// The accumulated argument text was not valid JSON. Not stream-fatal:
    /// the caller decides how to present the malformed call.
    ToolUseJsonParseError {
        id: String,
        tool_name: String,
        raw_input: String,
        json_parse_error: String,
    },
    Stop(StopReason),
}

/// A terminal error in the event sequence.
#[derive(Clone, Debug)]
pub enum CompletionError {
    /// A chunk carried no choice entries.
    NoChoices,
    /// At drain time an accumulated tool call was missing its id or name.
    IncompleteToolCall,
    /// The transport failed; the message is its description.
    Transport(String),
}

impl CompletionError {
    /// A human-readable description of the error.
    pub fn message(&self) -> (r: String)
        ensures
            match self {
                CompletionError::NoChoices => r@ == "Response contained no choices"@,
                CompletionError::IncompleteToolCall => r@
                    == "Received incomplete tool call: missing id or name"@,
                CompletionError::Transport(m) => r@ == m@,
            },
    {
        match self {
            CompletionError::NoChoices => String::from_str("Response contained no choices"),
            CompletionError::IncompleteToolCall => String::from_str(
                "Received incomplete tool call: missing id or name",
            ),
            CompletionError::Transport(m) => m.clone(),
        }
    }
}

/// Ghost view of a [`CompletionEvent`]. It keeps everything except the
/// parsed JSON value and the parse diagnostic, which no contract pins: the
/// former is opaque, the latter is serde's wording.
#[verifier::ext_equal]
pub enum EventView {
    Text(Seq<char>),
    UsageUpdate(TokenUsage),
    ToolUse { id: Seq<char>, name: Seq<char>, raw_input: Seq<char>, is_input_complete: bool },
    ToolUseJsonParseError { id: Seq<char>, tool_name: Seq<char>, raw_input: Seq<char> },
    Stop(StopReason),
}

impl DeepView for CompletionEvent {
    type V = EventView;

    open spec fn deep_view(&self) -> EventView {
        match self {
            CompletionEvent::Text(t) => EventView::Text(t@),
            CompletionEvent::UsageUpdate(u) => EventView::UsageUpdate(*u),
            CompletionEvent::ToolUse(t) => EventView::ToolUse {
                id: t.id@,
                name: t.name@,
                raw_input: t.raw_input@,
                is_input_complete: t.is_input_complete,
            },
            CompletionEvent::ToolUseJsonParseError { id, tool_name, raw_input, json_parse_error } =>
                EventView::ToolUseJsonParseError {
                    id: id@,
                    tool_name: tool_name@,
                    raw_input: raw_input@,
                },
            CompletionEvent::Stop(r) => EventView::Stop(*r),
        }
    }
}

/// Ghost view of a [`CompletionError`].
#[verifier::ext_equal]
pub enum ErrorView {
    NoChoices,
    IncompleteToolCall,
    Transport(Seq<char>),
}

impl DeepView for CompletionError {
    type V = ErrorView;

    open spec fn deep_view(&self) -> ErrorView {
        match self {
            CompletionError::NoChoices => ErrorView::NoChoices,
            CompletionError::IncompleteToolCall => ErrorView::IncompleteToolCall,
            CompletionError::Transport(t) => ErrorView::Transport(t@),
        }
    }
}

} // verus!

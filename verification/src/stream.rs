//! Decoded stream chunks, as the transport hands them to the event mapper.

use vstd::prelude::*;

verus! {

/// The function-call part of a tool-call fragment. Either field may be
/// missing: the provider splits a call's name and argument text across
/// chunks as it pleases.
#[derive(Clone, Debug)]
pub struct FunctionChunk {
    pub name: Option<String>,
    pub arguments: Option<String>,
}

/// One tool-call fragment, keyed by the stream-local `index`.
#[derive(Clone, Debug)]
pub struct ToolCallChunk {
    pub index: usize,
    pub id: Option<String>,
    pub function: Option<FunctionChunk>,
}

/// The delta carried by one choice of a chunk.
#[derive(Clone, Debug)]
pub struct StreamDelta {
    pub content: Option<String>,
    pub tool_calls: Option<Vec<ToolCallChunk>>,
}

/// One choice entry of a chunk.
#[derive(Clone, Debug)]
pub struct StreamChoice {
    pub delta: StreamDelta,
    pub finish_reason: Option<String>,
}

/// Token totals reported by the provider.
#[derive(Clone, Copy, PartialEq, Eq, Structural, Debug)]
pub struct StreamUsage {
    pub prompt_tokens: u64,
    pub completion_tokens: u64,
}

/// One decoded wire-format stream chunk.
#[derive(Clone, Debug)]
pub struct StreamResponse {
    pub choices: Vec<StreamChoice>,
    pub usage: Option<StreamUsage>,
}

} // verus!

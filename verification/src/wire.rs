//! The provider's wire request model, together with the ghost views that the
//! translator's contracts are stated over.

use vstd::prelude::*;

verus! {

/// One item of a multipart user message.
#[derive(Clone, Debug)]
pub enum MessagePart {
    Text { text: String },
    ImageUrl { image_url: String },
}

/// Ghost view of a [`MessagePart`].
#[verifier::ext_equal]
pub enum PartView {
    Text(Seq<char>),
    ImageUrl(Seq<char>),
}

impl DeepView for MessagePart {
    type V = PartView;

    open spec fn deep_view(&self) -> PartView {
        match self {
            MessagePart::Text { text } => PartView::Text(text@),
            MessagePart::ImageUrl { image_url } => PartView::ImageUrl(image_url@),
        }
    }
}

/// Content of a wire user message: plain text or a multipart list.
#[derive(Clone, Debug)]
pub enum MessageContent {
    Plain { content: String },
    Multipart { content: Vec<MessagePart> },
}

/// Ghost view of a wire [`MessageContent`].
#[verifier::ext_equal]
pub enum ContentView {
    Plain(Seq<char>),
    Multipart(Seq<PartView>),
}

impl DeepView for MessageContent {
    type V = ContentView;

    open spec fn deep_view(&self) -> ContentView {
        match self {
            MessageContent::Plain { content } => ContentView::Plain(content@),
            MessageContent::Multipart { content } => ContentView::Multipart(content.deep_view()),
        }
    }
}

/// A completed tool call attached to a wire assistant message.
#[derive(Clone, Debug)]
pub struct ToolCall {
    pub id: String,
    pub name: String,
    /// JSON-encoded argument text.
    pub arguments: String,
}

/// Ghost view of a [`ToolCall`].
#[verifier::ext_equal]
pub struct ToolCallView {
    pub id: Seq<char>,
    pub name: Seq<char>,
    pub arguments: Seq<char>,
}

impl DeepView for ToolCall {
    type V = ToolCallView;

    open spec fn deep_view(&self) -> ToolCallView {
        ToolCallView { id: self.id@, name: self.name@, arguments: self.arguments@ }
    }
}

/// One role-tagged message of the wire request.
#[derive(Clone, Debug)]
pub enum RequestMessage {
    System { content: String },
    User { content: MessageContent },
    Assistant { content: Option<String>, tool_calls: Vec<ToolCall> },
    Tool { content: String, tool_call_id: String },
}

/// Ghost view of a [`RequestMessage`].
#[verifier::ext_equal]
pub enum MessageView {
    System { content: Seq<char> },
    User { content: ContentView },
    Assistant { content: Option<Seq<char>>, tool_calls: Seq<ToolCallView> },
    Tool { content: Seq<char>, tool_call_id: Seq<char> },
}

impl DeepView for RequestMessage {
    type V = MessageView;

    open spec fn deep_view(&self) -> MessageView {
        match self {
            RequestMessage::System { content } => MessageView::System { content: content@ },
            RequestMessage::User { content } => MessageView::User { content: content.deep_view() },
            RequestMessage::Assistant { content, tool_calls } => MessageView::Assistant {
                content: content.deep_view(),
                tool_calls: tool_calls.deep_view(),
            },
            RequestMessage::Tool { content, tool_call_id } => MessageView::Tool {
                content: content@,
                tool_call_id: tool_call_id@,
            },
        }
    }
}

/// The wire mirror of the tool-choice policy.
#[derive(Clone, Copy, PartialEq, Eq, Structural, Debug)]
pub enum ToolChoice {
    Auto,
    Any,
    /// Serialized as `"none"`.
    NoTool,
}

/// A translated tool definition's function record.
#[derive(Clone, Debug)]
pub struct FunctionDefinition {
    pub name: String,
    pub description: Option<String>,
    /// JSON text of the input schema.
    pub parameters: Option<String>,
}

/// A translated tool definition; the wire format tags it as a function tool.
#[derive(Clone, Debug)]
pub enum ToolDefinition {
    Function { function: FunctionDefinition },
}

/// Ghost view of a wire [`ToolDefinition`].
#[verifier::ext_equal]
pub struct ToolDefView {
    pub name: Seq<char>,
    pub description: Option<Seq<char>>,
    pub parameters: Option<Seq<char>>,
}

impl DeepView for ToolDefinition {
    type V = ToolDefView;

    open spec fn deep_view(&self) -> ToolDefView {
        match self {
            ToolDefinition::Function { function } => ToolDefView {
                name: function.name@,
                description: function.description.deep_view(),
                parameters: function.parameters.deep_view(),
            },
        }
    }
}

/// The complete wire request.
///
/// `temperature` is in thousandths, as in the neutral model; the boundary
/// that speaks JSON turns it into the provider's number.
#[derive(Clone, Debug)]
pub struct Request {
    pub model: String,
    pub messages: Vec<RequestMessage>,
    pub stream: bool,
    pub max_tokens: Option<u64>,
    pub temperature: Option<u32>,
    pub tool_choice: Option<ToolChoice>,
    pub parallel_tool_calls: Option<bool>,
    pub tools: Vec<ToolDefinition>,
}

} // verus!

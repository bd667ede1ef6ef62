use mistral_adapter::request::{Message, MessageContent, Request, Role, ToolChoice,
    ToolDefinition, ToolResultContent, ToolResultRequest, ToolUseRequest};
use mistral_adapter::translate::into_mistral;
use mistral_adapter::wire;

fn plain_request(messages: Vec<Message>) -> Request {
    Request { messages, temperature: None, tools: vec![], tool_choice: None }
}

fn text_message(role: Role, text: &str) -> Message {
    Message { role, content: vec![MessageContent::Text(text.to_string())], cache: false }
}

fn sample_tool() -> ToolDefinition {
    ToolDefinition {
        name: "lookup".to_string(),
        description: "Looks something up".to_string(),
        input_schema: "{\"type\":\"object\"}".to_string(),
    }
}

#[test]
fn test_into_mistral_basic_conversion() {
    let request = Request {
        messages: vec![
            text_message(Role::System, "System prompt"),
            text_message(Role::User, "Hello"),
        ],
        temperature: Some(500),
        tools: vec![],
        tool_choice: None,
    };

    let mistral_request = into_mistral(request, "mistral-small-latest".to_string(), None);

    assert_eq!(mistral_request.model, "mistral-small-latest");
    assert_eq!(mistral_request.temperature, Some(500));
    assert_eq!(mistral_request.messages.len(), 2);
    assert!(mistral_request.stream);
}

#[test]
fn test_into_mistral_with_image() {
    let request = plain_request(vec![Message {
        role: Role::User,
        content: vec![
            MessageContent::Text("What's in this image?".to_string()),
            MessageContent::Image("base64data".to_string()),
        ],
        cache: false,
    }]);

    let mistral_request = into_mistral(request, "pixtral-12b-latest".to_string(), None);

    assert_eq!(mistral_request.messages.len(), 1);
    assert!(matches!(
        &mistral_request.messages[0],
        wire::RequestMessage::User { content: wire::MessageContent::Multipart { .. } }
    ));

    if let wire::RequestMessage::User { content: wire::MessageContent::Multipart { content } } =
        &mistral_request.messages[0]
    {
        assert_eq!(content.len(), 2);
        assert!(matches!(
            &content[0],
            wire::MessagePart::Text { text } if text == "What's in this image?"
        ));
        assert!(matches!(
            &content[1],
            wire::MessagePart::ImageUrl { image_url } if image_url.starts_with("data:image/png;base64,")
        ));
    }
}

#[test]
fn test_round_trip_scenario() {
    let request = Request {
        messages: vec![
            text_message(Role::System, "You are helpful"),
            text_message(Role::User, "Hello"),
        ],
        temperature: Some(500),
        tools: vec![],
        tool_choice: None,
    };

    let wire_request = into_mistral(request, "mistral-small-latest".to_string(), None);

    assert_eq!(wire_request.messages.len(), 2);
    assert_eq!(wire_request.temperature, Some(500));
    assert!(wire_request.tool_choice.is_none());
    assert!(wire_request.tools.is_empty());
    assert!(wire_request.parallel_tool_calls.is_none());
}

#[test]
fn test_unsupported_user_part_yields_no_message() {
    let request = plain_request(vec![Message {
        role: Role::User,
        content: vec![MessageContent::ToolUse(ToolUseRequest {
            id: "call_1".to_string(),
            name: "lookup".to_string(),
            input: "{}".to_string(),
        })],
        cache: false,
    }]);

    let wire_request = into_mistral(request, "mistral-small-latest".to_string(), None);

    assert_eq!(wire_request.messages.len(), 0);
}

#[test]
fn test_tool_result_becomes_tool_message_with_placeholder() {
    let request = plain_request(vec![Message {
        role: Role::User,
        content: vec![
            MessageContent::ToolResult(ToolResultRequest {
                tool_use_id: "call_7".to_string(),
                content: ToolResultContent::Text("42".to_string()),
            }),
            MessageContent::Text("thanks".to_string()),
        ],
        cache: false,
    }]);

    let wire_request = into_mistral(request, "mistral-small-latest".to_string(), None);

    // Tool message, then the spliced placeholder assistant, then the user turn.
    assert_eq!(wire_request.messages.len(), 3);
    assert!(matches!(
        &wire_request.messages[0],
        wire::RequestMessage::Tool { tool_call_id, content }
            if tool_call_id == "call_7" && content == "42"
    ));
    assert!(matches!(
        &wire_request.messages[1],
        wire::RequestMessage::Assistant { content: Some(c), tool_calls } if c == " " && tool_calls.is_empty()
    ));
    assert!(matches!(&wire_request.messages[2], wire::RequestMessage::User { .. }));
}

#[test]
fn test_no_tool_message_directly_before_user_message() {
    let request = plain_request(vec![
        Message {
            role: Role::User,
            content: vec![MessageContent::ToolResult(ToolResultRequest {
                tool_use_id: "a".to_string(),
                content: ToolResultContent::Text("one".to_string()),
            })],
            cache: false,
        },
        text_message(Role::User, "next question"),
    ]);

    let wire_request = into_mistral(request, "mistral-small-latest".to_string(), None);

    for pair in wire_request.messages.windows(2) {
        let tool_then_user = matches!(&pair[0], wire::RequestMessage::Tool { .. })
            && matches!(&pair[1], wire::RequestMessage::User { .. });
        assert!(!tool_then_user);
    }
}

#[test]
fn test_image_tool_result_uses_placeholder_text() {
    let request = plain_request(vec![Message {
        role: Role::User,
        content: vec![MessageContent::ToolResult(ToolResultRequest {
            tool_use_id: "img_call".to_string(),
            content: ToolResultContent::Image("rawbytes".to_string()),
        })],
        cache: false,
    }]);

    let wire_request = into_mistral(request, "pixtral-12b-latest".to_string(), None);

    assert_eq!(wire_request.messages.len(), 1);
    assert!(matches!(
        &wire_request.messages[0],
        wire::RequestMessage::Tool { content, .. } if content.contains("image")
    ));
}

#[test]
fn test_system_message_with_two_texts_yields_two_wire_messages() {
    let request = plain_request(vec![Message {
        role: Role::System,
        content: vec![
            MessageContent::Text("first".to_string()),
            MessageContent::Text("second".to_string()),
        ],
        cache: false,
    }]);

    let wire_request = into_mistral(request, "mistral-small-latest".to_string(), None);

    assert_eq!(wire_request.messages.len(), 2);
    assert!(matches!(&wire_request.messages[0], wire::RequestMessage::System { content } if content == "first"));
    assert!(matches!(&wire_request.messages[1], wire::RequestMessage::System { content } if content == "second"));
}

#[test]
fn test_assistant_tool_use_attaches_to_trailing_assistant() {
    let request = plain_request(vec![Message {
        role: Role::Assistant,
        content: vec![
            MessageContent::Text("calling a tool".to_string()),
            MessageContent::ToolUse(ToolUseRequest {
                id: "call_9".to_string(),
                name: "lookup".to_string(),
                input: "{\"q\":\"x\"}".to_string(),
            }),
        ],
        cache: false,
    }]);

    let wire_request = into_mistral(request, "mistral-small-latest".to_string(), None);

    assert_eq!(wire_request.messages.len(), 1);
    match &wire_request.messages[0] {
        wire::RequestMessage::Assistant { content, tool_calls } => {
            assert_eq!(content.as_deref(), Some("calling a tool"));
            assert_eq!(tool_calls.len(), 1);
            assert_eq!(tool_calls[0].id, "call_9");
            assert_eq!(tool_calls[0].name, "lookup");
            assert_eq!(tool_calls[0].arguments, "{\"q\":\"x\"}");
        }
        other => panic!("expected an assistant message, got {:?}", other),
    }
}

#[test]
fn test_assistant_tool_use_without_open_assistant_starts_bare_one() {
    let request = plain_request(vec![
        text_message(Role::User, "go"),
        Message {
            role: Role::Assistant,
            content: vec![MessageContent::ToolUse(ToolUseRequest {
                id: "call_0".to_string(),
                name: "lookup".to_string(),
                input: "{}".to_string(),
            })],
            cache: false,
        },
    ]);

    let wire_request = into_mistral(request, "mistral-small-latest".to_string(), None);

    assert_eq!(wire_request.messages.len(), 2);
    assert!(matches!(
        &wire_request.messages[1],
        wire::RequestMessage::Assistant { content: None, tool_calls } if tool_calls.len() == 1
    ));
}

#[test]
fn test_tool_choice_empty_tools_auto_requested() {
    let mut request = plain_request(vec![text_message(Role::User, "hi")]);
    request.tool_choice = Some(ToolChoice::Auto);
    let wire_request = into_mistral(request, "mistral-small-latest".to_string(), None);
    assert!(wire_request.tool_choice.is_none());
    assert!(wire_request.parallel_tool_calls.is_none());
}

#[test]
fn test_tool_choice_empty_tools_any_requested() {
    let mut request = plain_request(vec![text_message(Role::User, "hi")]);
    request.tool_choice = Some(ToolChoice::Any);
    let wire_request = into_mistral(request, "mistral-small-latest".to_string(), None);
    assert!(wire_request.tool_choice.is_none());
}

#[test]
fn test_tool_choice_no_tool_requested_with_tools() {
    let mut request = plain_request(vec![text_message(Role::User, "hi")]);
    request.tools = vec![sample_tool()];
    request.tool_choice = Some(ToolChoice::NoTool);
    let wire_request = into_mistral(request, "mistral-small-latest".to_string(), None);
    assert_eq!(wire_request.tool_choice, Some(wire::ToolChoice::NoTool));
    assert_eq!(wire_request.parallel_tool_calls, Some(false));
}

#[test]
fn test_tool_choice_defaults_to_auto_with_tools() {
    let mut request = plain_request(vec![text_message(Role::User, "hi")]);
    request.tools = vec![sample_tool()];
    let wire_request = into_mistral(request, "mistral-small-latest".to_string(), None);
    assert_eq!(wire_request.tool_choice, Some(wire::ToolChoice::Auto));
    assert_eq!(wire_request.parallel_tool_calls, Some(false));
}

#[test]
fn test_tool_choice_no_tool_passes_through_without_tools() {
    // The explicit refusal passes through even beside an empty tool list.
    let mut request = plain_request(vec![text_message(Role::User, "hi")]);
    request.tool_choice = Some(ToolChoice::NoTool);
    let wire_request = into_mistral(request, "mistral-small-latest".to_string(), None);
    assert_eq!(wire_request.tool_choice, Some(wire::ToolChoice::NoTool));
}

#[test]
fn test_tool_definitions_are_translated() {
    let mut request = plain_request(vec![text_message(Role::User, "hi")]);
    request.tools = vec![sample_tool()];
    let wire_request = into_mistral(request, "mistral-small-latest".to_string(), Some(1024));

    assert_eq!(wire_request.max_tokens, Some(1024));
    assert_eq!(wire_request.tools.len(), 1);
    let wire::ToolDefinition::Function { function } = &wire_request.tools[0];
    assert_eq!(function.name, "lookup");
    assert_eq!(function.description.as_deref(), Some("Looks something up"));
    assert_eq!(function.parameters.as_deref(), Some("{\"type\":\"object\"}"));
}

#[test]
fn test_redacted_thinking_is_dropped_and_thinking_kept() {
    let request = plain_request(vec![Message {
        role: Role::User,
        content: vec![
            MessageContent::Thinking("pondering".to_string()),
            MessageContent::RedactedThinking("hidden".to_string()),
        ],
        cache: false,
    }]);

    let wire_request = into_mistral(request, "mistral-small-latest".to_string(), None);

    assert_eq!(wire_request.messages.len(), 1);
    if let wire::RequestMessage::User { content: wire::MessageContent::Multipart { content } } =
        &wire_request.messages[0]
    {
        assert_eq!(content.len(), 1);
        assert!(matches!(&content[0], wire::MessagePart::Text { text } if text == "pondering"));
    } else {
        panic!("expected a multipart user message");
    }
}

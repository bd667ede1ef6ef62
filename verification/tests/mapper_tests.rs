use mistral_adapter::events::{CompletionError, CompletionEvent, StopReason};
use mistral_adapter::mapper::MistralEventMapper;
use mistral_adapter::stream::{FunctionChunk, StreamChoice, StreamDelta, StreamResponse,
    StreamUsage, ToolCallChunk};

fn empty_delta() -> StreamDelta {
    StreamDelta { content: None, tool_calls: None }
}

fn chunk_with_delta(delta: StreamDelta, finish_reason: Option<&str>) -> StreamResponse {
    StreamResponse {
        choices: vec![StreamChoice { delta, finish_reason: finish_reason.map(str::to_string) }],
        usage: None,
    }
}

fn fragment(
    index: usize,
    id: Option<&str>,
    name: Option<&str>,
    arguments: Option<&str>,
) -> ToolCallChunk {
    ToolCallChunk {
        index,
        id: id.map(str::to_string),
        function: Some(FunctionChunk {
            name: name.map(str::to_string),
            arguments: arguments.map(str::to_string),
        }),
    }
}

fn fragment_chunk(frags: Vec<ToolCallChunk>) -> StreamResponse {
    chunk_with_delta(StreamDelta { content: None, tool_calls: Some(frags) }, None)
}

fn finish_chunk(reason: &str) -> StreamResponse {
    chunk_with_delta(empty_delta(), Some(reason))
}

#[test]
fn test_no_choices_yields_error() {
    let mut mapper = MistralEventMapper::new();
    let events = mapper.map_event(&StreamResponse { choices: vec![], usage: None });
    assert_eq!(events.len(), 1);
    assert!(matches!(&events[0], Err(CompletionError::NoChoices)));
}

#[test]
fn test_text_delta_passes_through_verbatim() {
    let mut mapper = MistralEventMapper::new();
    let events = mapper.map_event(&chunk_with_delta(
        StreamDelta { content: Some("Hel\u{2028}lo ".to_string()), tool_calls: None },
        None,
    ));
    assert_eq!(events.len(), 1);
    assert!(matches!(&events[0], Ok(CompletionEvent::Text(t)) if t == "Hel\u{2028}lo "));
}

#[test]
fn test_usage_update_fixes_cache_counters_at_zero() {
    let mut mapper = MistralEventMapper::new();
    let events = mapper.map_event(&StreamResponse {
        choices: vec![StreamChoice { delta: empty_delta(), finish_reason: None }],
        usage: Some(StreamUsage { prompt_tokens: 17, completion_tokens: 5 }),
    });
    assert_eq!(events.len(), 1);
    match &events[0] {
        Ok(CompletionEvent::UsageUpdate(u)) => {
            assert_eq!(u.input_tokens, 17);
            assert_eq!(u.output_tokens, 5);
            assert_eq!(u.cache_creation_input_tokens, 0);
            assert_eq!(u.cache_read_input_tokens, 0);
        }
        other => panic!("expected a usage update, got {:?}", other),
    }
}

#[test]
fn test_stop_with_no_pending_calls_yields_single_stop() {
    let mut mapper = MistralEventMapper::new();
    let events = mapper.map_event(&finish_chunk("stop"));
    assert_eq!(events.len(), 1);
    assert!(matches!(&events[0], Ok(CompletionEvent::Stop(StopReason::EndTurn))));
}

#[test]
fn test_unexpected_finish_reason_fails_open_to_end_turn() {
    let mut mapper = MistralEventMapper::new();
    let events = mapper.map_event(&finish_chunk("length"));
    assert_eq!(events.len(), 1);
    assert!(matches!(&events[0], Ok(CompletionEvent::Stop(StopReason::EndTurn))));
}

#[test]
fn test_arguments_split_across_three_fragments_concatenate() {
    let mut mapper = MistralEventMapper::new();
    let e1 = mapper.map_event(&fragment_chunk(vec![fragment(
        0,
        Some("call_1"),
        Some("lookup"),
        Some("{\"q\":"),
    )]));
    let e2 = mapper.map_event(&fragment_chunk(vec![fragment(0, None, None, Some("\"rust\""))]));
    let e3 = mapper.map_event(&fragment_chunk(vec![fragment(0, None, None, Some("}"))]));
    assert!(e1.is_empty() && e2.is_empty() && e3.is_empty());

    let events = mapper.map_event(&finish_chunk("tool_calls"));
    assert_eq!(events.len(), 2);
    match &events[0] {
        Ok(CompletionEvent::ToolUse(t)) => {
            assert_eq!(t.id, "call_1");
            assert_eq!(t.name, "lookup");
            assert_eq!(t.raw_input, "{\"q\":\"rust\"}");
            assert!(t.is_input_complete);
            let expected: serde_json::Value =
                serde_json::from_str("{\"q\":\"rust\"}").unwrap();
            assert_eq!(t.input, expected);
        }
        other => panic!("expected a tool-use event, got {:?}", other),
    }
    assert!(matches!(&events[1], Ok(CompletionEvent::Stop(StopReason::ToolUse))));
}

#[test]
fn test_incomplete_entry_yields_error_but_complete_one_still_drains() {
    let mut mapper = MistralEventMapper::new();
    // Index 0 never receives an id; index 1 is complete.
    mapper.map_event(&fragment_chunk(vec![
        fragment(0, None, Some("nameless"), Some("{}")),
        fragment(1, Some("call_2"), Some("lookup"), Some("{}")),
    ]));

    let events = mapper.map_event(&finish_chunk("tool_calls"));
    assert_eq!(events.len(), 3);
    assert!(matches!(&events[0], Err(CompletionError::IncompleteToolCall)));
    assert!(matches!(&events[1], Ok(CompletionEvent::ToolUse(t)) if t.id == "call_2"));
    assert!(matches!(&events[2], Ok(CompletionEvent::Stop(StopReason::ToolUse))));
}

#[test]
fn test_invalid_json_arguments_yield_parse_error_event() {
    let mut mapper = MistralEventMapper::new();
    mapper.map_event(&fragment_chunk(vec![fragment(
        0,
        Some("call_3"),
        Some("lookup"),
        Some("{\"q\": unterminated"),
    )]));

    let events = mapper.map_event(&finish_chunk("tool_calls"));
    assert_eq!(events.len(), 2);
    match &events[0] {
        Ok(CompletionEvent::ToolUseJsonParseError { id, tool_name, raw_input, json_parse_error }) => {
            assert_eq!(id, "call_3");
            assert_eq!(tool_name, "lookup");
            assert_eq!(raw_input, "{\"q\": unterminated");
            assert!(!json_parse_error.is_empty());
        }
        other => panic!("expected a parse-error event, got {:?}", other),
    }
    assert!(matches!(&events[1], Ok(CompletionEvent::Stop(StopReason::ToolUse))));
}

#[test]
fn test_empty_id_fragment_does_not_erase_id() {
    let mut mapper = MistralEventMapper::new();
    mapper.map_event(&fragment_chunk(vec![fragment(0, Some("call_4"), Some("lookup"), None)]));
    // A later fragment carrying an empty id must not overwrite the real one.
    mapper.map_event(&fragment_chunk(vec![fragment(0, Some(""), None, Some("{}"))]));

    let events = mapper.map_event(&finish_chunk("tool_calls"));
    assert_eq!(events.len(), 2);
    assert!(matches!(&events[0], Ok(CompletionEvent::ToolUse(t)) if t.id == "call_4"));
}

#[test]
fn test_drain_happens_once_per_finish_signal() {
    let mut mapper = MistralEventMapper::new();
    mapper.map_event(&fragment_chunk(vec![fragment(0, Some("c"), Some("n"), Some("{}"))]));
    let first = mapper.map_event(&finish_chunk("tool_calls"));
    assert_eq!(first.len(), 2);
    // The accumulator was emptied: a second finish drains nothing.
    let second = mapper.map_event(&finish_chunk("tool_calls"));
    assert_eq!(second.len(), 1);
    assert!(matches!(&second[0], Ok(CompletionEvent::Stop(StopReason::ToolUse))));
}

#[test]
fn test_text_and_usage_and_finish_in_one_chunk_keep_order() {
    let mut mapper = MistralEventMapper::new();
    let events = mapper.map_event(&StreamResponse {
        choices: vec![StreamChoice {
            delta: StreamDelta { content: Some("tail".to_string()), tool_calls: None },
            finish_reason: Some("stop".to_string()),
        }],
        usage: Some(StreamUsage { prompt_tokens: 1, completion_tokens: 2 }),
    });
    assert_eq!(events.len(), 3);
    assert!(matches!(&events[0], Ok(CompletionEvent::Text(t)) if t == "tail"));
    assert!(matches!(&events[1], Ok(CompletionEvent::UsageUpdate(_))));
    assert!(matches!(&events[2], Ok(CompletionEvent::Stop(StopReason::EndTurn))));
}

#[test]
fn test_map_stream_passes_transport_errors_through() {
    let mapper = MistralEventMapper::new();
    let items = vec![
        Ok(chunk_with_delta(
            StreamDelta { content: Some("a".to_string()), tool_calls: None },
            None,
        )),
        Err("connection reset".to_string()),
        Ok(finish_chunk("stop")),
    ];
    let events = mapper.map_stream(items);
    assert_eq!(events.len(), 3);
    assert!(matches!(&events[0], Ok(CompletionEvent::Text(t)) if t == "a"));
    assert!(matches!(&events[1], Err(CompletionError::Transport(m)) if m == "connection reset"));
    assert!(matches!(&events[2], Ok(CompletionEvent::Stop(StopReason::EndTurn))));
}

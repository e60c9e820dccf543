//! Answers that come piece by piece.
use loongclaw::json::{parse_json, render_json, Json};
use loongclaw::provider::failover::ProviderFailoverReason;
use loongclaw::provider::sse::{
    parse_sse_line, SseByteStreamParser, SseItem, SseLine, SseStreamEvent,
};
use loongclaw::provider::streaming::{
    callback_data, streaming_event, streaming_token_event, StreamingAccumulator,
    StreamingCallbackData, StreamingEvent, StreamingTokenEvent, TokenDelta, ToolCallDelta,
    ToolCallInfo,
};

fn json(text: &str) -> Json {
    parse_json(text).expect("json")
}

#[test]
fn sse_stream_event_assembles_anthropic_delta_correctly() {
    let event_type = Some("content_block_delta".to_owned());
    let data_lines = vec!["{\"type\":\"text_delta\",\"text\":\"Hello\"}".to_owned()];
    let event = SseStreamEvent::from_sse_lines(event_type, &data_lines);
    match event {
        Ok(Some(SseStreamEvent::Message { data, event_type })) => {
            assert_eq!(event_type.as_deref(), Some("content_block_delta"));
            assert_eq!(data.str_at("type"), Some("text_delta"));
            assert_eq!(data.str_at("text"), Some("Hello"));
        }
        _ => panic!("expected a message"),
    }
}

#[test]
fn streaming_accumulator_accumulates_text_deltas() {
    let mut accumulator = StreamingAccumulator::default();
    accumulator.text.push_str("Hello");
    assert_eq!(accumulator.text, "Hello");
    assert!(!accumulator.done);
    assert!(accumulator.error.is_none());
    accumulator.text.push_str(" World");
    assert_eq!(accumulator.text, "Hello World");
    accumulator.done = true;
    assert!(accumulator.done);
}

#[test]
fn streaming_accumulator_accumulates_tool_input_partials() {
    let mut accumulator = StreamingAccumulator::default();
    accumulator.tool_calls.insert(
        0,
        ToolCallInfo {
            name: "get_weather".to_owned(),
            id: "call_123".to_owned(),
            input: "{\"location".to_owned(),
        },
    );
    accumulator.tool_calls.insert(
        1,
        ToolCallInfo {
            name: "other_tool".to_owned(),
            id: "call_456".to_owned(),
            input: "{\"arg".to_owned(),
        },
    );
    assert_eq!(accumulator.tool_calls.len(), 2);
    assert_eq!(
        accumulator.tool_calls.get(&0).map(|t| &t.name),
        Some(&"get_weather".to_owned())
    );
    assert_eq!(
        accumulator.tool_calls.get(&1).map(|t| &t.input),
        Some(&"{\"arg".to_owned())
    );
}

#[test]
fn streaming_event_parsing_text_delta() {
    let data = json(
        r#"{"type": "content_block_delta", "delta": {"type": "text_delta", "text": "Hello"}}"#,
    );
    assert_eq!(data.str_at("type"), Some("content_block_delta"));
    let delta = data.get("delta").expect("delta");
    assert_eq!(delta.str_at("type"), Some("text_delta"));
    assert_eq!(delta.str_at("text"), Some("Hello"));
    match streaming_event(&data) {
        Some(StreamingEvent::Text(text)) => assert_eq!(text, "Hello"),
        _ => panic!("expected a text"),
    }
}

#[test]
fn streaming_event_parsing_input_json_delta() {
    let data = json(
        r#"{
        "type": "content_block_delta",
        "index": 0,
        "delta": {"type": "input_json_delta", "partial_json": "{\"location\":\"NYC\"}"}
    }"#,
    );
    assert_eq!(data.str_at("type"), Some("content_block_delta"));
    match streaming_event(&data) {
        Some(StreamingEvent::ToolInputPartial {
            index,
            partial_json,
        }) => {
            assert_eq!(partial_json, "{\"location\":\"NYC\"}");
            assert_eq!(index, 0);
        }
        _ => panic!("expected input"),
    }
}

#[test]
fn streaming_event_parsing_message_delta_stop() {
    let data = json(r#"{"type": "message_delta", "delta": {"type": "message_stop"}}"#);
    assert_eq!(data.str_at("type"), Some("message_delta"));
    let delta = data.get("delta").expect("delta");
    assert_eq!(delta.str_at("type"), Some("message_stop"));
    assert!(matches!(
        streaming_event(&data),
        Some(StreamingEvent::Meta(_))
    ));
}

fn rendered(event: &StreamingTokenEvent) -> String {
    let call = |delta: &ToolCallDelta| {
        format!("{:?} {:?} {:?}", delta.name, delta.args, delta.id)
    };
    format!(
        "{} {:?} {:?} {:?}",
        event.event_type,
        event.delta.text,
        event.delta.tool_call.as_ref().map(call),
        event.index
    )
}

#[test]
fn streaming_event_to_token_event_conversion() {
    let text_event = StreamingTokenEvent {
        event_type: "content_block_delta".to_owned(),
        delta: TokenDelta {
            text: Some("Hello".to_owned()),
            tool_call: None,
        },
        index: None,
    };
    let shown = rendered(&text_event);
    assert!(shown.contains("Hello"));
    assert!(shown.contains("content_block_delta"));
}

#[test]
fn streaming_token_event_serialize_for_cli() {
    let tool_event = StreamingTokenEvent {
        event_type: "content_block_delta".to_owned(),
        delta: TokenDelta {
            text: None,
            tool_call: Some(ToolCallDelta {
                name: Some("get_weather".to_owned()),
                args: Some("{\"location\":\"NYC\"}".to_owned()),
                id: Some("call_123".to_owned()),
            }),
        },
        index: Some(0),
    };
    let shown = rendered(&tool_event);
    assert!(shown.contains("get_weather"));
    assert!(shown.contains("NYC"));
}

#[test]
fn streaming_accumulator_with_callback() {
    let mut accumulator = StreamingAccumulator::default();
    accumulator.on_event(StreamingEvent::Text("Hello".to_owned()), "m");
    accumulator.on_event(StreamingEvent::Text(" World".to_owned()), "m");
    let final_text = accumulator.text.clone();
    assert_eq!(final_text, "Hello World");
}

#[test]
fn observers_are_told_of_texts_and_calls() {
    let text = callback_data(&StreamingEvent::Text("a".to_owned())).expect("told");
    let event = streaming_token_event(text);
    assert_eq!(event.event_type, "text_delta");
    assert_eq!(event.delta.text.as_deref(), Some("a"));
    assert_eq!(event.index, None);
    let start = callback_data(&StreamingEvent::ToolCallStart {
        index: 2,
        name: "n".to_owned(),
        id: "i".to_owned(),
    })
    .expect("told");
    let event = streaming_token_event(start);
    assert_eq!(event.event_type, "tool_call_start");
    assert_eq!(event.index, Some(2));
    let event = streaming_token_event(StreamingCallbackData::ToolCallInput {
        index: 3,
        partial_json: "{".to_owned(),
    });
    assert_eq!(event.event_type, "tool_call_input_delta");
    let call = event.delta.tool_call.expect("call");
    assert_eq!(call.args.as_deref(), Some("{"));
    assert!(callback_data(&StreamingEvent::Done).is_none());
}

#[test]
fn pieces_that_mean_nothing_are_left_out() {
    for text in [
        r#"{}"#,
        r#"{"type":"ping"}"#,
        r#"{"type":"content_block_start"}"#,
        r#"{"type":"content_block_start","index":0,"content_block":{"type":"text"}}"#,
        r#"{"type":"content_block_start","content_block":{"type":"tool_use","name":"n","id":"i"}}"#,
        r#"{"type":"content_block_delta","delta":{"type":"other"}}"#,
    ] {
        assert!(streaming_event(&json(text)).is_none(), "{text}");
    }
    match streaming_event(&json(r#"{"type":"error"}"#)) {
        Some(StreamingEvent::StreamError(message)) => {
            assert_eq!(message, "unknown streaming error")
        }
        _ => panic!("expected an error"),
    }
}

fn event(text: &str) -> StreamingEvent {
    streaming_event(&json(text)).expect("event")
}

#[test]
fn a_turn_is_put_together_in_the_order_of_its_calls() {
    let mut accumulator = StreamingAccumulator::default();
    for text in [
        r#"{"type":"message_start","message":{"id":"m1"}}"#,
        r#"{"type":"content_block_delta","delta":{"type":"text_delta","text":"let me "}}"#,
        r#"{"type":"content_block_start","index":2,"content_block":{"type":"tool_use","name":"b","id":"2"}}"#,
        r#"{"type":"content_block_start","index":1,"content_block":{"type":"tool_use","name":"a","id":"1"}}"#,
        r#"{"type":"content_block_delta","index":1,"delta":{"type":"input_json_delta","partial_json":"{\"x\""}}"#,
        r#"{"type":"content_block_delta","index":2,"delta":{"type":"input_json_delta","partial_json":"{}"}}"#,
        r#"{"type":"content_block_delta","index":1,"delta":{"type":"input_json_delta","partial_json":":1}"}}"#,
        r#"{"type":"content_block_delta","index":9,"delta":{"type":"input_json_delta","partial_json":"lost"}}"#,
        r#"{"type":"content_block_delta","delta":{"type":"text_delta","text":"look"}}"#,
        r#"{"type":"message_delta","usage":{"output_tokens":3}}"#,
    ] {
        accumulator.on_event(event(text), "m");
        assert!(!accumulator.is_over());
    }
    accumulator.on_event(event(r#"{"type":"message_stop"}"#), "m");
    assert!(accumulator.is_over());
    let turn = match accumulator.finish(Some("s"), None, "m") {
        Ok(turn) => turn,
        Err(error) => panic!("{}", error.message),
    };
    assert_eq!(turn.assistant_text, "let me look");
    assert_eq!(turn.tool_intents.len(), 2);
    assert_eq!(turn.tool_intents[0].tool_name, "a");
    assert_eq!(render_json(&turn.tool_intents[0].args_json), "{\"x\":1}");
    assert_eq!(turn.tool_intents[0].session_id, "s");
    assert_eq!(turn.tool_intents[0].turn_id, "");
    assert_eq!(turn.tool_intents[1].tool_call_id, "2");
    assert_eq!(turn.raw_meta.str_at("type"), Some("message_delta"));
    assert!(turn.raw_meta.get("message").is_some());
    assert!(turn.raw_meta.get("usage").is_some());
}

#[test]
fn streams_that_break_off_are_errors() {
    let accumulator = StreamingAccumulator::default();
    let error = accumulator.finish(None, None, "m").err().expect("error");
    assert!(error
        .message
        .starts_with("streaming response ended without message_stop event | "));
    assert_eq!(error.snapshot.model, "m");

    let mut accumulator = StreamingAccumulator::default();
    accumulator.on_event(
        event(r#"{"type":"error","error":{"message":"overloaded"}}"#),
        "m",
    );
    assert!(accumulator.is_over());
    let error = accumulator.finish(None, None, "m").err().expect("error");
    assert!(error
        .message
        .starts_with("Anthropic streaming error: overloaded | "));
    assert_eq!(error.reason, ProviderFailoverReason::ResponseShapeInvalid);

    let mut accumulator = StreamingAccumulator::default();
    accumulator.tool_calls.insert(
        0,
        ToolCallInfo {
            name: "n".to_owned(),
            id: "i".to_owned(),
            input: "{".to_owned(),
        },
    );
    accumulator.on_event(StreamingEvent::Done, "m");
    let error = accumulator.finish(None, None, "m").err().expect("error");
    assert!(error
        .message
        .starts_with("failed to parse tool call input: EOF while parsing"));

    let mut accumulator = StreamingAccumulator::default();
    let mut parser = SseByteStreamParser::new();
    parser.feed(b"data: {\n");
    match parser.next_item() {
        Some(SseItem::Failed(error)) => accumulator.on_error(error),
        _ => panic!("expected an error"),
    }
    assert!(accumulator.is_over());
}

#[test]
fn lines_of_a_stream() {
    assert!(matches!(parse_sse_line(""), SseLine::Empty));
    assert!(matches!(parse_sse_line(": ping"), SseLine::Comment));
    match parse_sse_line("event: message_start") {
        SseLine::EventType { name } => assert_eq!(name, "message_start"),
        _ => panic!("expected an event"),
    }
    match parse_sse_line("data:x") {
        SseLine::Data { content } => assert_eq!(content, "x"),
        _ => panic!("expected data"),
    }
    match parse_sse_line("retry: 10") {
        SseLine::Retry { delay } => assert_eq!(delay, "10"),
        _ => panic!("expected a delay"),
    }
    assert!(matches!(
        SseStreamEvent::from_sse_lines(None, &vec!["[DONE]".to_owned()]),
        Ok(Some(SseStreamEvent::Done))
    ));
    assert!(matches!(
        SseStreamEvent::from_sse_lines(None, &Vec::new()),
        Ok(None)
    ));
    match SseStreamEvent::from_sse_lines(
        Some("error".to_owned()),
        &vec![r#"{"error":{"message":"down"}}"#.to_owned()],
    ) {
        Ok(Some(SseStreamEvent::Error { message })) => assert_eq!(message, "down"),
        _ => panic!("expected an error"),
    }
    assert!(SseStreamEvent::from_sse_lines(None, &vec!["{".to_owned()]).is_err());
}

fn texts_of(parser: &mut SseByteStreamParser) -> Vec<String> {
    let mut texts = Vec::new();
    while let Some(item) = parser.next_item() {
        match item {
            SseItem::Event(StreamingEvent::Text(text)) => texts.push(text),
            SseItem::Event(_) => texts.push("other".to_owned()),
            SseItem::Failed(error) => texts.push(error.message),
        }
    }
    texts
}

const STREAM: &str = "event: content_block_delta\r\ndata: {\"type\":\"content_block_delta\",\"delta\":{\"type\":\"text_delta\",\"text\":\"gr\u{f6}\u{df}e\"}}\r\n\r\n: ping\ndata: {\"type\":\"message_stop\"}\n";

#[test]
fn how_a_stream_is_cut_does_not_matter() {
    let mut whole = SseByteStreamParser::new();
    assert!(!whole.feed(STREAM.as_bytes()));
    let expected = texts_of(&mut whole);
    assert_eq!(expected, vec!["größe", "other"]);
    for size in 1..12 {
        let mut parser = SseByteStreamParser::new();
        for piece in STREAM.as_bytes().chunks(size) {
            assert!(!parser.feed(piece));
        }
        assert_eq!(texts_of(&mut parser), expected);
    }
}

#[test]
fn broken_lines_are_told_and_the_end_is_the_end() {
    let mut parser = SseByteStreamParser::new();
    assert!(!parser.feed(b"data: \xff\ndata: {\ndata: \n"));
    let texts = texts_of(&mut parser);
    assert_eq!(texts.len(), 2);
    assert!(texts[0].starts_with(
        "invalid UTF-8 in SSE stream: invalid utf-8 sequence of 1 bytes from index 6 | "
    ));
    assert!(texts[1].starts_with("streaming event parse failed: EOF while parsing"));
    assert!(parser.feed(b"data: [DONE]\ndata: {\"type\":\"message_stop\"}\n"));
    assert!(parser.next_item().is_none());
}

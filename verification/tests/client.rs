use agent_core::json::Json;
use agent_core::llm::client::{
    events_from_payload, is_event_stream, json_fallback, list_models, provider_error_event,
    StreamReader, ToolCallAccumulator,
};
use agent_core::{ApiErrorKind, CoreEvent, HttpClient, ModelInfo, Usage};

#[test]
fn client_delta_payload_becomes_delta_event() {
    let mut usage = None;
    let mut tool_calls = ToolCallAccumulator::new();
    let events = events_from_payload(
        r#"{"choices":[{"index":0,"delta":{"role":"assistant","content":"Hel"}}]}"#,
        &mut usage,
        &mut tool_calls,
    );
    assert_eq!(events, vec![CoreEvent::Delta { text: "Hel".into() }]);
    assert!(usage.is_none());
}

#[test]
fn tests_delta_payload_becomes_delta_event() {
    let mut usage = None;
    let mut tool_calls = ToolCallAccumulator::new();
    let events = events_from_payload(
        r#"{"choices":[{"index":0,"delta":{"role":"assistant","content":"Hel"}}]}"#,
        &mut usage,
        &mut tool_calls,
    );
    assert_eq!(events, vec![CoreEvent::Delta { text: "Hel".into() }]);
    assert!(usage.is_none());
}

#[test]
fn client_usage_payload_is_captured_not_emitted() {
    let mut usage = None;
    let mut tool_calls = ToolCallAccumulator::new();
    let events = events_from_payload(
        r#"{"choices":[],"usage":{"prompt_tokens":10,"completion_tokens":5,"total_tokens":15}}"#,
        &mut usage,
        &mut tool_calls,
    );
    assert!(events.is_empty());
    assert_eq!(
        usage,
        Some(Usage {
            input_tokens: Some(10),
            output_tokens: Some(5),
            total_tokens: Some(15),
        })
    );
}

#[test]
fn tests_usage_payload_is_captured_not_emitted() {
    let mut usage = None;
    let mut tool_calls = ToolCallAccumulator::new();
    let events = events_from_payload(
        r#"{"choices":[],"usage":{"prompt_tokens":10,"completion_tokens":5,"total_tokens":15}}"#,
        &mut usage,
        &mut tool_calls,
    );
    assert!(events.is_empty());
    assert_eq!(
        usage,
        Some(Usage {
            input_tokens: Some(10),
            output_tokens: Some(5),
            total_tokens: Some(15),
        })
    );
}

#[test]
fn client_tool_call_fragments_accumulate_into_complete_calls() {
    let mut usage = None;
    let mut tool_calls = ToolCallAccumulator::new();
    for payload in [
        r#"{"choices":[{"delta":{"role":"assistant","tool_calls":[{"index":0,"id":"call_1","type":"function","function":{"name":"web_search","arguments":""}}]}}]}"#,
        r#"{"choices":[{"delta":{"tool_calls":[{"index":0,"function":{"arguments":"{\"query\":"}}]}}]}"#,
        r#"{"choices":[{"delta":{"tool_calls":[{"index":0,"function":{"arguments":"\"frogs\"}"}}]}}]}"#,
    ] {
        assert!(events_from_payload(payload, &mut usage, &mut tool_calls).is_empty());
    }
    assert_eq!(
        tool_calls.take_events(),
        vec![CoreEvent::ToolCall {
            id: "call_1".into(),
            name: "web_search".into(),
            input: Json::parse(r#"{"query": "frogs"}"#).unwrap(),
        }]
    );
}

#[test]
fn tests_tool_call_fragments_accumulate_into_complete_calls() {
    let mut usage = None;
    let mut tool_calls = ToolCallAccumulator::new();
    for payload in [
        r#"{"choices":[{"delta":{"role":"assistant","tool_calls":[{"index":0,"id":"call_1","type":"function","function":{"name":"web_search","arguments":""}}]}}]}"#,
        r#"{"choices":[{"delta":{"tool_calls":[{"index":0,"function":{"arguments":"{\"query\":"}}]}}]}"#,
        r#"{"choices":[{"delta":{"tool_calls":[{"index":0,"function":{"arguments":"\"frogs\"}"}}]}}]}"#,
    ] {
        assert!(events_from_payload(payload, &mut usage, &mut tool_calls).is_empty());
    }
    assert_eq!(
        tool_calls.take_events(),
        vec![CoreEvent::ToolCall {
            id: "call_1".into(),
            name: "web_search".into(),
            input: Json::parse(r#"{"query": "frogs"}"#).unwrap(),
        }]
    );
}

#[test]
fn absurd_tool_call_indexes_are_dropped_not_allocated() {
    let mut usage = None;
    let mut tool_calls = ToolCallAccumulator::new();
    let payload = format!(
        r#"{{"choices":[{{"delta":{{"tool_calls":[{{"index":{},"id":"call_x","function":{{"name":"web_search","arguments":"{{}}"}}}}]}}}}]}}"#,
        usize::MAX
    );
    assert!(events_from_payload(&payload, &mut usage, &mut tool_calls).is_empty());
    assert!(
        tool_calls.is_empty(),
        "no slot may be allocated for an out-of-range index"
    );
    assert!(tool_calls.take_events().is_empty());
}

#[test]
fn client_empty_content_deltas_are_dropped() {
    let mut usage = None;
    let mut tool_calls = ToolCallAccumulator::new();
    let events = events_from_payload(
        r#"{"choices":[{"delta":{"content":""}}]}"#,
        &mut usage,
        &mut tool_calls,
    );
    assert!(events.is_empty());
}

#[test]
fn tests_empty_content_deltas_are_dropped() {
    let mut usage = None;
    let mut tool_calls = ToolCallAccumulator::new();
    let events = events_from_payload(
        r#"{"choices":[{"delta":{"content":""}}]}"#,
        &mut usage,
        &mut tool_calls,
    );
    assert!(events.is_empty());
}

#[test]
fn client_malformed_payloads_are_skipped() {
    let mut usage = None;
    let mut tool_calls = ToolCallAccumulator::new();
    assert!(events_from_payload("not json at all", &mut usage, &mut tool_calls).is_empty());
    assert!(events_from_payload(r#"{"unexpected": true}"#, &mut usage, &mut tool_calls).is_empty());
    assert!(usage.is_none());
}

#[test]
fn tests_malformed_payloads_are_skipped() {
    let mut usage = None;
    let mut tool_calls = ToolCallAccumulator::new();
    assert!(events_from_payload("not json at all", &mut usage, &mut tool_calls).is_empty());
    assert!(events_from_payload(r#"{"unexpected": true}"#, &mut usage, &mut tool_calls).is_empty());
    assert!(usage.is_none());
}

#[test]
fn client_error_status_maps_to_kinds() {
    let CoreEvent::Error { kind, message } =
        provider_error_event(401, r#"{"error":{"message":"invalid key"}}"#)
    else {
        panic!("expected error event");
    };
    assert_eq!(kind, ApiErrorKind::Unauthorized);
    assert!(message.contains("invalid key"));

    let CoreEvent::Error { kind, .. } = provider_error_event(429, "") else {
        panic!("expected error event");
    };
    assert_eq!(kind, ApiErrorKind::RateLimited);

    let CoreEvent::Error { kind, message } = provider_error_event(500, "boom") else {
        panic!("expected error event");
    };
    assert_eq!(kind, ApiErrorKind::Provider);
    assert!(message.contains("boom"), "expected body text in: {message}");
}

#[test]
fn tests_error_status_maps_to_kinds() {
    let CoreEvent::Error { kind, message } =
        provider_error_event(401, r#"{"error":{"message":"invalid key"}}"#)
    else {
        panic!("expected error event");
    };
    assert_eq!(kind, ApiErrorKind::Unauthorized);
    assert!(message.contains("invalid key"));

    let CoreEvent::Error { kind, .. } = provider_error_event(429, "") else {
        panic!("expected error event");
    };
    assert_eq!(kind, ApiErrorKind::RateLimited);

    let CoreEvent::Error { kind, message } = provider_error_event(500, "boom") else {
        panic!("expected error event");
    };
    assert_eq!(kind, ApiErrorKind::Provider);
    assert!(message.contains("boom"), "expected body text in: {message}");
}

#[test]
fn client_error_message_falls_back_to_truncated_body() {
    let long = "x".repeat(500);
    let CoreEvent::Error { message, .. } = provider_error_event(502, &long) else {
        panic!("expected error event");
    };
    assert!(
        message.contains('…'),
        "expected truncation marker in: {message}"
    );
}

#[test]
fn tests_error_message_falls_back_to_truncated_body() {
    let long = "x".repeat(500);
    let CoreEvent::Error { message, .. } = provider_error_event(502, &long) else {
        panic!("expected error event");
    };
    assert!(
        message.contains('…'),
        "expected truncation marker in: {message}"
    );
}

#[test]
fn forward_payload_done_completes_turn_with_captured_usage() {
    let mut reader = StreamReader::new();
    let usage = r#"{"choices":[],"usage":{"prompt_tokens":1,"completion_tokens":2}}"#;
    assert!(reader.forward_payload(usage).is_empty());
    assert!(!reader.is_done());
    let events = reader.forward_payload("[DONE]");
    assert!(reader.is_done());
    assert_eq!(
        events,
        vec![CoreEvent::TurnDone {
            usage: Some(Usage {
                input_tokens: Some(1),
                output_tokens: Some(2),
                total_tokens: Some(3),
            })
        }]
    );
    assert!(reader.forward_payload("[DONE]").is_empty());
}

#[test]
fn a_stream_ends_with_one_terminal_event() {
    let mut reader = StreamReader::new();
    let mut events = reader.push(b"data: {\"choices\":[{\"delta\":{\"content\":\"Hi\"}}]}\n\n");
    events.extend(reader.finish());
    assert_eq!(events.len(), 2);
    assert_eq!(events[0], CoreEvent::Delta { text: "Hi".into() });
    assert!(matches!(events[1], CoreEvent::TurnDone { .. } | CoreEvent::Error { .. }));
}

#[test]
fn a_streamed_tool_call_comes_before_the_end() {
    let mut reader = StreamReader::new();
    let call = r#"{"choices":[{"delta":{"tool_calls":[{"index":1,"id":"b","function":{"name":"two","arguments":"{}"}},{"index":0,"id":"a","function":{"name":"one","arguments":"{\"n\":1}"}}]}}]}"#;
    assert!(reader.forward_payload(call).is_empty());
    let events = reader.forward_payload("[DONE]");
    assert_eq!(
        events,
        vec![
            CoreEvent::ToolCall {
                id: "a".into(),
                name: "one".into(),
                input: Json::parse(r#"{"n":1}"#).unwrap(),
            },
            CoreEvent::ToolCall {
                id: "b".into(),
                name: "two".into(),
                input: Json::parse("{}").unwrap(),
            },
            CoreEvent::TurnDone { usage: None },
        ]
    );
}

#[test]
fn an_answer_that_was_not_streamed_becomes_events() {
    let body = r#"{"choices":[{"message":{"role":"assistant","content":"Hello","reasoning":"hm"}}],"usage":{"prompt_tokens":2,"completion_tokens":3}}"#;
    assert_eq!(
        json_fallback(body),
        vec![
            CoreEvent::Reasoning { text: "hm".into() },
            CoreEvent::Delta { text: "Hello".into() },
            CoreEvent::TurnDone {
                usage: Some(Usage {
                    input_tokens: Some(2),
                    output_tokens: Some(3),
                    total_tokens: Some(5),
                })
            },
        ]
    );
    let events = json_fallback("<html>");
    assert_eq!(events.len(), 1);
    assert!(matches!(
        &events[0],
        CoreEvent::Error { kind: ApiErrorKind::Protocol, .. }
    ));
}

#[test]
fn a_status_maps_to_each_kind() {
    for (status, kind) in [
        (401, ApiErrorKind::Unauthorized),
        (403, ApiErrorKind::Unauthorized),
        (404, ApiErrorKind::NotFound),
        (429, ApiErrorKind::RateLimited),
        (500, ApiErrorKind::Provider),
    ] {
        let CoreEvent::Error { kind: found, message } = provider_error_event(status, "body") else {
            panic!("expected error event");
        };
        assert_eq!(found, kind);
        assert_eq!(message, format!("provider returned HTTP {status}: body"));
    }
}

#[test]
fn model_lists_are_read() {
    let body = r#"{"data":[{"id":"a"},{"object":"model"},{"id":"b","reasoning":{"effort_levels":[{"value":"low"},{}],"default_effort_level":"low"}}]}"#;
    let models = list_models(200, true, body).unwrap();
    assert_eq!(models.len(), 2);
    assert_eq!(models[0], ModelInfo::new("a"));
    assert_eq!(models[1].reasoning_effort_levels, vec!["low"]);
    assert_eq!(models[1].default_reasoning_effort.as_deref(), Some("low"));
    let err = list_models(200, true, "nope").unwrap_err();
    assert_eq!(err.kind, ApiErrorKind::Protocol);
    let err = list_models(401, false, "nope").unwrap_err();
    assert_eq!(err.kind, ApiErrorKind::Unauthorized);
}

#[test]
fn endpoints_stand_below_the_base_url() {
    let client = HttpClient::new(" https://x.test/v1/ ", "key").unwrap();
    assert_eq!(client.endpoint("/chat/completions"), "https://x.test/v1/chat/completions");
    assert_eq!(client.bearer().as_deref(), Some("key"));
    assert_eq!(HttpClient::new("https://x.test", "").unwrap().bearer(), None);
    assert!(HttpClient::new("  ", "key").is_err());
    let err = HttpClient::unreachable_error("https://x.test", "refused");
    assert_eq!(err.kind, ApiErrorKind::Network);
    assert!(err.message.contains("refused"));
}

#[test]
fn only_event_streams_are_read_as_streams() {
    assert!(is_event_stream(&Some("Text/Event-Stream; charset=utf-8".into())));
    assert!(!is_event_stream(&Some("application/json".into())));
    assert!(!is_event_stream(&None));
}

#[test]
fn a_list_is_a_chunk_too() {
    let mut usage = None;
    let mut tool_calls = ToolCallAccumulator::new();
    assert!(events_from_payload("[]", &mut usage, &mut tool_calls).is_empty());
    let events = events_from_payload(r#"[[[["Hi"]]], [1, 2]]"#, &mut usage, &mut tool_calls);
    assert_eq!(events, vec![CoreEvent::Delta { text: "Hi".into() }]);
    assert_eq!(usage.unwrap().total_tokens, Some(3));
    usage = None;
    assert!(events_from_payload("[[], [1], 0]", &mut usage, &mut tool_calls).is_empty());
    assert_eq!(usage, None);
}

#[test]
fn calls_come_in_the_order_of_their_indexes() {
    let mut usage = None;
    let mut tool_calls = ToolCallAccumulator::new();
    let fragment = |index: u64, id: &str, name: &str, arguments: &str| {
        format!(
            r#"{{"choices":[{{"delta":{{"tool_calls":[{{"index":{index},"id":"{id}","function":{{"name":"{name}","arguments":"{arguments}"}}}}]}}}}]}}"#
        )
    };
    for payload in [
        fragment(128, "a", "late", "[1"),
        fragment(5, "b", "", "[]"),
        fragment(3, "c", "early", "[]"),
        fragment(4_000_000_000, "d", "last", "[]"),
        fragment(128, "e", "r", "]"),
        fragment(u64::MAX, "f", "none", "[]"),
        fragment(i64::MAX as u64, "g", "none", "[]"),
    ] {
        assert!(events_from_payload(&payload, &mut usage, &mut tool_calls).is_empty());
    }
    assert!(!tool_calls.is_empty());
    let call = |id: &str, name: &str, input: &str| CoreEvent::ToolCall {
        id: id.into(),
        name: name.into(),
        input: Json::parse(input).unwrap(),
    };
    assert_eq!(
        tool_calls.take_events(),
        vec![call("c", "early", "[]"), call("e", "later", "[1]"), call("d", "last", "[]")]
    );
    assert!(tool_calls.is_empty());
    assert!(tool_calls.take_events().is_empty());
}

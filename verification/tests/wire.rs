use agent_core::fields::FromJson;
use agent_core::json::Json;
use agent_core::llm::wire::{
    read_error_detail, read_models, reasoning_text, request_to_json, WireChunk, WireCompletion,
};
use agent_core::{ChatMessage, ChatRequest, ToolCall, Usage};

fn json(text: &str) -> Json {
    Json::parse(text).unwrap()
}

fn chunk(text: &str) -> WireChunk {
    WireChunk::from_json(&json(text)).unwrap()
}

fn items<'a>(value: &'a Json, key: &str) -> &'a Vec<Json> {
    match value.get(key) {
        Some(Json::Array(v)) => v,
        other => panic!("{key} must be a list: {other:?}"),
    }
}

#[test]
fn streaming_request_shape_matches_the_openai_protocol() {
    let request = ChatRequest::new(
        "openai/gpt-4o-mini",
        vec![ChatMessage::user("Hello"), ChatMessage::assistant("Hi!")],
    );
    assert_eq!(
        request_to_json(&request),
        json(
            r#"{
            "model": "openai/gpt-4o-mini",
            "messages": [
                {"role": "user", "content": "Hello"},
                {"role": "assistant", "content": "Hi!"}
            ],
            "stream": true,
            "stream_options": {"include_usage": true}
        }"#
        )
    );
}

#[test]
fn tool_call_messages_serialize_with_null_content_and_tools() {
    let request = ChatRequest::new(
        "m",
        vec![
            ChatMessage::user("hi"),
            ChatMessage::assistant_with_tool_calls(
                "",
                vec![ToolCall::new("call_1", "web_search", json(r#"{"query": "x"}"#))],
            ),
            ChatMessage::tool("call_1", "result"),
        ],
    )
    .with_tools(vec![json(r#"{"type": "function"}"#)]);
    let value = request_to_json(&request);
    assert_eq!(
        items(&value, "messages")[1],
        json(
            r#"{
            "role": "assistant",
            "content": null,
            "tool_calls": [{
                "id": "call_1",
                "type": "function",
                "function": {"name": "web_search", "arguments": "{\"query\":\"x\"}"}
            }]
        }"#
        )
    );
    assert_eq!(
        items(&value, "messages")[2],
        json(r#"{"role": "tool", "content": "result", "tool_call_id": "call_1"}"#)
    );
    assert_eq!(
        items(&value, "tools")[0].get("type"),
        Some(&Json::of_str("function"))
    );
}

#[test]
fn parses_content_delta_chunk() {
    let chunk = chunk(r#"{"choices":[{"index":0,"delta":{"role":"assistant","content":"Hel"}}]}"#);
    assert_eq!(chunk.choices.len(), 1);
    assert_eq!(chunk.choices[0].delta.content.as_deref(), Some("Hel"));
    assert!(chunk.usage.is_none());
}

#[test]
fn tolerates_null_and_missing_content() {
    let one = chunk(r#"{"choices":[{"index":0,"delta":{"role":"assistant","content":null}}]}"#);
    assert_eq!(one.choices[0].delta.content, None);

    let two = chunk(r#"{"choices":[{"index":0,"delta":{}}]}"#);
    assert_eq!(two.choices[0].delta.content, None);
}

#[test]
fn parses_usage_only_final_chunk() {
    let chunk = chunk(
        r#"{"choices":[],"usage":{"prompt_tokens":10,"completion_tokens":4,"total_tokens":14}}"#,
    );
    let usage = chunk.usage.unwrap().into_usage();
    assert_eq!(
        usage,
        Usage {
            input_tokens: Some(10),
            output_tokens: Some(4),
            total_tokens: Some(14),
        }
    );
}

#[test]
fn usage_total_defaults_to_sum_when_missing() {
    let chunk = chunk(r#"{"usage":{"prompt_tokens":7,"completion_tokens":3}}"#);
    let usage = chunk.usage.unwrap().into_usage();
    assert_eq!(usage.total_tokens, Some(10));
}

#[test]
fn ignores_provider_specific_extra_fields() {
    let chunk = chunk(
        r#"{"id":"gen-1","provider":"openrouter","choices":[{"index":0,"delta":{"content":"x"}}],"system_fingerprint":null}"#,
    );
    assert_eq!(chunk.choices[0].delta.content.as_deref(), Some("x"));
}

#[test]
fn parses_non_streaming_completion() {
    let completion = WireCompletion::from_json(&json(
        r#"{"choices":[{"message":{"role":"assistant","content":"Hello there"}}],"usage":{"prompt_tokens":2,"completion_tokens":3,"total_tokens":5}}"#,
    ))
    .unwrap();
    assert_eq!(
        completion.choices[0].content.as_deref(),
        Some("Hello there")
    );
    assert_eq!(completion.usage.as_ref().unwrap().total_tokens, Some(5));
}

#[test]
fn parses_error_body_and_is_lenient_about_shape() {
    let body = json(r#"{"error":{"message":"bad key","code":401,"type":"auth"}}"#);
    assert_eq!(read_error_detail(&body), "bad key");

    // A body that is no object has no words of its own.
    assert_eq!(read_error_detail(&json("\"gateway timeout\"")), "");
}

#[test]
fn parses_model_list() {
    let list = read_models(&json(
        r#"{"data":[{"id":"a","object":"model"},{"id":"b"}]}"#,
    ))
    .unwrap();
    let ids: Vec<String> = list.into_iter().map(|m| m.id).collect();
    assert_eq!(ids, vec!["a", "b"]);
}

#[test]
fn parses_model_reasoning_metadata() {
    let list = read_models(&json(
        r#"{"data":[{"id":"deepseek-v4.1-flash","reasoning":{"effort_levels":[{"value":"low","display":"Low"},{"value":"high","display":"High"}],"default_effort_level":"high"}}]}"#,
    ))
    .unwrap();
    assert_eq!(list[0].reasoning_effort_levels, vec!["low", "high"]);
    assert_eq!(list[0].default_reasoning_effort.as_deref(), Some("high"));
}

#[test]
fn streaming_request_carries_reasoning_effort() {
    let request = ChatRequest::new("m", vec![ChatMessage::user("hi")])
        .with_reasoning_effort(Some("high".into()));
    assert_eq!(
        request_to_json(&request).get("reasoning_effort"),
        Some(&Json::of_str("high"))
    );

    // Blank effort is dropped, not sent.
    let request = ChatRequest::new("m", vec![ChatMessage::user("hi")])
        .with_reasoning_effort(Some("  ".into()));
    assert!(request_to_json(&request).get("reasoning_effort").is_none());
}

#[test]
fn a_cap_of_zero_is_not_sent() {
    let request = ChatRequest::new("m", vec![]).with_max_tokens(Some(7));
    assert_eq!(request_to_json(&request).get("max_tokens"), Some(&Json::of_u64(7)));
    let request = ChatRequest::new("m", vec![]).with_max_tokens(Some(0));
    assert_eq!(request_to_json(&request).get("max_tokens"), None);
}

#[test]
fn parses_reasoning_delta_chunk() {
    let one = chunk(r#"{"choices":[{"delta":{"reasoning_content":"We need"}}]}"#);
    let delta = &one.choices[0].delta;
    assert_eq!(
        reasoning_text(&delta.reasoning_content, &delta.reasoning).as_deref(),
        Some("We need")
    );
    assert_eq!(delta.content, None);

    // The other spelling is accepted too.
    let two = chunk(r#"{"choices":[{"delta":{"reasoning":"hmm"}}]}"#);
    let delta = &two.choices[0].delta;
    assert_eq!(
        reasoning_text(&delta.reasoning_content, &delta.reasoning).as_deref(),
        Some("hmm")
    );
}

#[test]
fn reasoning_is_not_sent_back_in_messages() {
    let request = ChatRequest::new(
        "m",
        vec![ChatMessage::assistant("42").with_reasoning("17*23")],
    );
    assert_eq!(
        request_to_json(&request).get("messages"),
        Some(&json(r#"[{"role": "assistant", "content": "42"}]"#))
    );
}

#[test]
fn a_list_stands_for_a_record() {
    let empty = chunk("[]");
    assert!(empty.choices.is_empty());
    assert_eq!(empty.usage, None);
    let listed = chunk(r#"[[[["Hi", null, "why", [[1, "c1", ["t", "{}"]]]]]], [3, 4]]"#);
    let delta = &listed.choices[0].delta;
    assert_eq!(delta.content.as_deref(), Some("Hi"));
    assert_eq!(delta.reasoning_content.as_deref(), Some("why"));
    assert_eq!(delta.tool_calls[0].index, 1);
    let function = delta.tool_calls[0].function.as_ref().unwrap();
    assert_eq!(function.arguments.as_deref(), Some("{}"));
    assert_eq!(listed.usage.unwrap().completion_tokens, Some(4));
    assert!(WireChunk::from_json(&json("[[], null, 1]")).is_none());
    assert!(WireChunk::from_json(&json("[null]")).is_none());
    assert!(WireChunk::from_json(&json("null")).is_none());

    let answer = WireCompletion::from_json(&json(r#"[[[["Hi", null, null, [["c", ["t"]]]]]]]"#));
    let choice = &answer.unwrap().choices[0];
    assert_eq!(choice.content.as_deref(), Some("Hi"));
    assert_eq!(choice.tool_calls[0].name, "t");
    assert_eq!(choice.tool_calls[0].arguments, "");
    assert_eq!(read_error_detail(&json(r#"[["slow down"]]"#)), "slow down");
    assert_eq!(read_error_detail(&json(r#"[["slow down", 1]]"#)), "");
    assert_eq!(read_models(&json(r#"[[["m"]]]"#)).unwrap()[0].id, "m");
}

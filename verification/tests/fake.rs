use agent_core::json::Json;
use agent_core::llm::fake::{record_interaction, record_models};
use agent_core::{
    ApiErrorKind, Artifact, Cassette, ChatMessage, ChatRequest, ClientMode, CoreEvent,
    FakeProvider, Interaction, ModelInfo, ToolCall,
};

fn sample_cassette() -> Cassette {
    Cassette {
        cassette_version: 1,
        recorded_at_unix: Some(1_760_000_000),
        base_url: Some("https://example.test/v1".into()),
        models: vec![ModelInfo::new("m/test")],
        interactions: vec![Interaction {
            request: ChatRequest::new("m/test", vec![ChatMessage::user("hello")]),
            events: vec![
                CoreEvent::Delta { text: "Hel".into() },
                CoreEvent::Delta { text: "lo".into() },
                CoreEvent::TurnDone { usage: None },
            ],
        }],
    }
}

fn missing() -> Result<String, String> {
    Err("No such file or directory (os error 2)".into())
}

#[test]
fn cassette_round_trips_through_json() {
    let cassette = sample_cassette();
    let loaded = Cassette::load("cassette.json", Ok(cassette.file_text())).unwrap();
    assert_eq!(loaded, cassette);
}

#[test]
fn a_cassette_with_everything_in_it_round_trips() {
    let args = Json::parse(r#"{"a":[1,2],"b":{"c":null}}"#).unwrap();
    let call = ToolCall::new("c1", "echo", args.copy());
    let mut model = ModelInfo::new("m");
    model.reasoning_effort_levels = vec!["low".into()];
    model.default_reasoning_effort = Some("low".into());
    let cassette = Cassette {
        models: vec![model],
        interactions: vec![Interaction {
            request: ChatRequest::new(
                "m",
                vec![
                    ChatMessage::user("hi").with_artifacts(vec![Artifact::new("a.png", None)]),
                    ChatMessage::assistant_with_tool_calls("", vec![call]).with_reasoning("hm"),
                    ChatMessage::tool("c1", "result"),
                ],
            )
            .with_tools(vec![args])
            .with_reasoning_effort(Some("low".into()))
            .with_max_tokens(Some(7)),
            events: vec![CoreEvent::error(ApiErrorKind::Network, "gone")],
        }],
        ..Cassette::new()
    };
    let loaded = Cassette::load("c", Ok(cassette.file_text())).unwrap();
    assert_eq!(loaded, cassette);
}

#[test]
fn cassette_version_mismatch_is_a_clear_error() {
    let text = r#"{"cassette_version": 99, "interactions": []}"#;
    let err = Cassette::load("c.json", Ok(text.into())).unwrap_err();
    assert!(err.message.contains("re-record"));
    assert_eq!(
        err.message,
        "cassette c.json has version 99 but this build speaks version 1; re-record it"
    );
}

#[test]
fn a_cassette_that_cannot_be_read_is_an_error() {
    let err = Cassette::load("c.json", missing()).unwrap_err();
    assert_eq!(err.kind, ApiErrorKind::Config);
    assert!(err.message.starts_with("cannot read cassette c.json: No such file"));
    for text in ["nope", "{}", r#"{"cassette_version": 1, "interactions": [{}]}"#] {
        let err = Cassette::load("c.json", Ok(text.into())).unwrap_err();
        assert_eq!(err.kind, ApiErrorKind::Protocol);
        assert!(err.message.starts_with("cassette c.json is not valid JSON: "));
    }
}

#[test]
fn replays_matching_request_and_loops_on_replay() {
    let mut fake = FakeProvider::from_cassette(sample_cassette());
    let request = ChatRequest::new("m/test", vec![ChatMessage::user("hello")]);
    for _ in 0..2 {
        assert_eq!(
            fake.chat(&request),
            vec![
                CoreEvent::Delta { text: "Hel".into() },
                CoreEvent::Delta { text: "lo".into() },
                CoreEvent::TurnDone { usage: None },
            ]
        );
    }
}

#[test]
fn matches_are_played_in_order_before_one_repeats() {
    let mut cassette = sample_cassette();
    cassette.interactions.push(Interaction {
        request: ChatRequest::new("m/test", vec![ChatMessage::user("hello")]),
        events: vec![CoreEvent::Delta { text: "second".into() }],
    });
    let mut fake = FakeProvider::from_cassette(cassette);
    let request = ChatRequest::new("m/test", vec![ChatMessage::user("hello")]);
    assert_eq!(fake.chat(&request).len(), 3);
    assert_eq!(fake.chat(&request), vec![CoreEvent::Delta { text: "second".into() }]);
    assert_eq!(fake.chat(&request).len(), 3);
}

#[test]
fn unmatched_request_without_fallback_is_a_loud_error() {
    let mut fake = FakeProvider::from_cassette(sample_cassette());
    let request = ChatRequest::new("m/test", vec![ChatMessage::user("never recorded")]);
    let events = fake.chat(&request);
    let CoreEvent::Error { kind, message } = &events[0] else {
        panic!("expected error event, got {events:?}");
    };
    assert_eq!(*kind, ApiErrorKind::Internal);
    assert!(message.contains("re-record"));
    assert!(message.contains("(model m/test, 1 messages)"));
}

#[test]
fn model_and_messages_decide_what_is_replayed() {
    let numbers = |text: &str| vec![Json::parse(text).unwrap()];
    let request = || {
        ChatRequest::new("m/test", vec![ChatMessage::user("hello")])
            .with_tools(numbers("[1, -2, 0.5]"))
    };
    let cassette = Cassette {
        interactions: vec![Interaction {
            request: request(),
            events: vec![CoreEvent::TurnDone { usage: None }],
        }],
        ..Cassette::new()
    };
    let mut fake = FakeProvider::from_cassette(cassette);
    for same in [
        request(),
        request().with_max_tokens(Some(1)),
        request().with_reasoning_effort(Some("high".into())),
        request().with_tools(numbers("[1, -2, 0.25]")),
        request().with_tools(vec![]),
    ] {
        assert!(matches!(fake.chat(&same)[0], CoreEvent::TurnDone { .. }));
    }
    for other in [
        ChatRequest::new("m/other", vec![ChatMessage::user("hello")]),
        ChatRequest::new("m/test", vec![]),
        ChatRequest::new("m/test", vec![ChatMessage::assistant("hello")]),
        ChatRequest::new("m/test", vec![ChatMessage::user("hello").with_reasoning("x")]),
    ] {
        assert!(matches!(fake.chat(&other)[0], CoreEvent::Error { .. }));
    }
}

#[test]
fn builtin_answers_any_request_keyless() {
    let mut fake = FakeProvider::builtin();
    let request = ChatRequest::new("whatever", vec![ChatMessage::user("anything")]);
    let events = fake.chat(&request);
    assert!(matches!(events.last(), Some(CoreEvent::TurnDone { .. })));
    assert!(events
        .iter()
        .any(|e| matches!(e, CoreEvent::Delta { text } if text.contains("fake provider"))));
    let models = fake.list_models();
    assert_eq!(models[0].id, "openai/gpt-4o-mini");
    assert!(models.iter().any(|m| m.id == "mistralai/mistral-small"));
    let thinker = models.iter().find(|m| m.id.starts_with("deepseek")).unwrap();
    assert_eq!(thinker.reasoning_effort_levels, vec!["low", "high", "xhigh"]);
}

#[test]
fn a_recording_falls_back_to_the_canned_answer() {
    let mut fake = FakeProvider::load_or_builtin(Ok(sample_cassette()));
    let request = ChatRequest::new("m/test", vec![ChatMessage::user("hello")]);
    assert_eq!(fake.chat(&request).len(), 3);
    let request = ChatRequest::new("other", vec![]);
    assert_eq!(fake.chat(&request).len(), 5);
    let fake = FakeProvider::load_or_builtin(Cassette::load("c", missing()));
    assert!(!fake.list_models().is_empty());
}

#[test]
fn recording_client_records_and_the_cassette_replays() {
    let mut inner = FakeProvider::builtin();
    let request =
        || ChatRequest::new("openai/gpt-4o-mini", vec![ChatMessage::user("hi there")]);
    let events = inner.chat(&request());
    assert!(!events.is_empty());
    let heard = inner.chat(&request());
    let cassette = record_interaction(
        Cassette::load("c", missing()),
        Some(1_700_000_000),
        request(),
        heard,
    )
    .unwrap();
    assert_eq!(cassette.recorded_at_unix, Some(1_700_000_000));
    let models = inner.list_models();
    assert!(!models.is_empty());
    let text = cassette.file_text();
    let cassette = record_models(Cassette::load("c", Ok(text)), &models, None).unwrap();

    let cassette = Cassette::load("c", Ok(cassette.file_text())).unwrap();
    assert_eq!(cassette.models.len(), models.len());
    assert_eq!(cassette.interactions.len(), 1);
    assert_eq!(cassette.interactions[0].request, request());
    assert_eq!(cassette.interactions[0].events, events);

    let mut replay = FakeProvider::from_cassette(cassette);
    assert_eq!(replay.chat(&request()), events);
}

#[test]
fn several_turns_all_reach_the_cassette() {
    let mut text = missing();
    for i in 0..8 {
        let request = ChatRequest::new("m", vec![ChatMessage::user(&format!("hi {i}"))]);
        let events = vec![CoreEvent::TurnDone { usage: None }];
        let cassette =
            record_interaction(Cassette::load("c", text), None, request, events).unwrap();
        text = Ok(cassette.file_text());
    }
    assert_eq!(Cassette::load("c", text).unwrap().interactions.len(), 8);
    let request = ChatRequest::new("m", vec![]);
    assert!(record_interaction(Ok(sample_cassette()), None, request, vec![]).is_none());
}

#[test]
fn record_models_refreshes_a_stale_cassette() {
    let mut stale = Cassette::new();
    stale.models = vec![ModelInfo::new("old/model")];
    let models = FakeProvider::builtin().list_models();
    let refreshed = record_models(Ok(stale), &models, None).unwrap();
    assert_eq!(refreshed.models, models, "the model list must be refreshed");
    assert!(refreshed.models.iter().any(|m| m.id == "openai/gpt-4o-mini"));
    // Nothing is written where nothing changes.
    assert!(record_models(Ok(refreshed), &models, None).is_none());
    let moved = record_models(Ok(sample_cassette()), &vec![ModelInfo::new("m/test")], Some("u".into()));
    assert_eq!(moved.unwrap().base_url.as_deref(), Some("u"));
}

#[test]
fn only_the_fake_mode_is_fake() {
    assert!(ClientMode::Fake { cassette: "c".into() }.is_fake());
    assert!(!ClientMode::Live.is_fake());
    assert!(!ClientMode::Record { cassette: "c".into() }.is_fake());
}

#[test]
fn a_cassette_lists_its_fields_in_a_fixed_order() {
    assert_eq!(
        sample_cassette().to_json().to_text(),
        [
            r#"{"cassette_version":1,"recorded_at_unix":1760000000,"#,
            r#""base_url":"https://example.test/v1","models":[{"id":"m/test"}],"#,
            r#""interactions":[{"request":{"model":"m/test","#,
            r#""messages":[{"role":"user","content":"hello"}]},"#,
            r#""events":[{"type":"delta","text":"Hel"},{"type":"delta","text":"lo"},"#,
            r#"{"type":"turn_done","usage":null}]}]}"#,
        ]
        .concat()
    );
}

#[test]
fn the_order_of_argument_fields_does_not_count() {
    let call = |text: &str| {
        let arguments = Json::parse(text).unwrap();
        let call = ToolCall::new("c", "t", arguments);
        ChatRequest::new("m/test", vec![ChatMessage::assistant_with_tool_calls("", vec![call])])
    };
    let mut cassette = sample_cassette();
    cassette.interactions[0].request = call(r#"{"a":1,"b":[2,{"c":3,"d":4}]}"#);
    let mut fake = FakeProvider::from_cassette(cassette);
    assert_eq!(fake.chat(&call(r#"{"b":[2,{"d":4,"c":3}],"a":1}"#)).len(), 3);
    assert!(matches!(
        fake.chat(&call(r#"{"b":[2,{"d":4,"c":4}],"a":1}"#))[..],
        [CoreEvent::Error { .. }]
    ));
}

use agent_core::events::{LiveItem, Polled, RecvError, TurnBuffer, TURN_BUFFER_CAPACITY};
use agent_core::fields::FromJson;
use agent_core::json::Json;
use agent_core::{
    ApiError, ApiErrorKind, ApprovalKind, ApprovalSink, Artifact, CoreEvent, Decision, DenyAll,
    EventStream, Risk, Role, Usage,
};

fn json(text: &str) -> Json {
    Json::parse(text).unwrap()
}

#[test]
fn kinds_serialize_snake_case() {
    assert_eq!(ApiErrorKind::RateLimited.to_json().to_text(), "\"rate_limited\"");
    assert_eq!(ApiErrorKind::RateLimited.as_str(), "rate_limited");
}

#[test]
fn display_includes_kind_and_message() {
    let err = ApiError::new(ApiErrorKind::Busy, "a turn is already in progress");
    assert_eq!(err.to_text(), "busy: a turn is already in progress");
}

#[test]
fn every_kind_is_found_under_its_name() {
    for kind in [
        ApiErrorKind::Config,
        ApiErrorKind::Busy,
        ApiErrorKind::Unauthorized,
        ApiErrorKind::RateLimited,
        ApiErrorKind::NotFound,
        ApiErrorKind::Forbidden,
        ApiErrorKind::Network,
        ApiErrorKind::Provider,
        ApiErrorKind::Protocol,
        ApiErrorKind::Aborted,
        ApiErrorKind::Internal,
    ] {
        assert_eq!(ApiErrorKind::named(kind.as_str()), Some(kind));
    }
    assert_eq!(ApiErrorKind::named("nope"), None);
    assert_eq!(ApiError::config("x").kind, ApiErrorKind::Config);
    assert_eq!(ApiError::internal("x").kind, ApiErrorKind::Internal);
}

#[test]
fn roles_serialize_lowercase() {
    assert_eq!(Json::of_str(Role::User.wire_name()).to_text(), "\"user\"");
    assert_eq!(Json::of_str(Role::Tool.wire_name()).to_text(), "\"tool\"");
}

#[test]
fn events_round_trip_through_the_wire_format() {
    let events = vec![
        CoreEvent::Delta { text: "Hel".into() },
        CoreEvent::Reasoning {
            text: "thinking…".into(),
        },
        CoreEvent::ToolCall {
            id: "call_1".into(),
            name: "web_search".into(),
            input: json(r#"{"query": "kaeru"}"#),
        },
        CoreEvent::ToolResult {
            id: "call_1".into(),
            name: "web_search".into(),
            output: "[]".into(),
            is_error: false,
        },
        CoreEvent::Artifact {
            path: "plot.png".into(),
            mime_hint: Some("image/png".into()),
        },
        CoreEvent::ApprovalRequest {
            id: "appr_1".into(),
            kind: ApprovalKind::PackageInstall {
                packages: vec!["pandas".into()],
            },
            summary: "Install pandas from PyPI?".into(),
        },
        CoreEvent::TurnDone {
            usage: Some(Usage {
                input_tokens: Some(10),
                output_tokens: Some(5),
                total_tokens: Some(15),
            }),
        },
        CoreEvent::error(ApiErrorKind::Aborted, "turn aborted"),
    ];

    for event in &events {
        let text = event.to_text();
        let back = CoreEvent::from_text(&text).unwrap();
        assert_eq!(&back, event);
    }
}

#[test]
fn wire_format_uses_snake_case_tags() {
    let delta = CoreEvent::Delta { text: "hi".into() }.to_json();
    assert_eq!(delta, json(r#"{"type": "delta", "text": "hi"}"#));

    let done = CoreEvent::TurnDone { usage: None }.to_json();
    assert_eq!(done, json(r#"{"type": "turn_done", "usage": null}"#));

    let err = CoreEvent::error(ApiErrorKind::RateLimited, "slow down").to_json();
    assert_eq!(err.get("type"), Some(&Json::of_str("error")));
    assert_eq!(err.get("kind"), Some(&Json::of_str("rate_limited")));

    let approval = ApprovalKind::NetworkAccess {
        reason: "pip".into(),
    }
    .to_json();
    assert_eq!(
        approval,
        json(r#"{"kind": "network_access", "reason": "pip"}"#)
    );
}

#[test]
fn event_names_are_the_wire_tags() {
    let event = CoreEvent::artifact(&Artifact::new("a.txt", None));
    assert_eq!(event.event_name(), "artifact");
    assert_eq!(event.to_text(), r#"{"type":"artifact","path":"a.txt","mime_hint":null}"#);
    assert_eq!(CoreEvent::from_text("{\"type\":\"nope\"}"), None);
    assert_eq!(CoreEvent::from_text("not json"), None);
    assert_eq!(CoreEvent::from_text("{\"type\":\"delta\"}"), None);
}

#[test]
fn usage_skips_missing_fields() {
    let text = Usage::default().to_json().to_text();
    assert_eq!(text, "{}");
}

#[test]
fn usage_adds_up_and_a_missing_report_counts_as_nothing() {
    let mut total = Usage::default();
    total.add(&Usage {
        input_tokens: Some(7),
        output_tokens: None,
        total_tokens: Some(9),
    });
    total.add(&Usage::default());
    total.add(&Usage {
        input_tokens: Some(1),
        output_tokens: Some(2),
        total_tokens: Some(3),
    });
    assert_eq!(total.input_tokens, Some(8));
    assert_eq!(total.output_tokens, Some(2));
    assert_eq!(total.total_tokens, Some(12));
}

#[test]
fn memory_write_approval_kind_round_trips() {
    let kind = ApprovalKind::MemoryWrite {
        path: "data/memory/2026-09-11".into(),
    };
    let value = kind.to_json();
    assert_eq!(
        value,
        json(r#"{"kind": "memory_write", "path": "data/memory/2026-09-11"}"#)
    );
    let back = ApprovalKind::from_json(&value).unwrap();
    assert_eq!(back, kind);
}

#[test]
fn risk_carries_the_approval_kind() {
    let risk = Risk::NeedsApproval(ApprovalKind::MemoryWrite { path: "p".into() });
    assert!(matches!(risk, Risk::NeedsApproval(_)));
    assert_eq!(Risk::Safe, Risk::Safe);
}

#[test]
fn a_sink_that_approves_nothing_denies() {
    let kind = ApprovalKind::NetworkAccess { reason: "x".into() };
    assert_eq!(DenyAll.request(kind, "summary".into()), Decision::Deny);
}

#[test]
fn event_stream_replays_then_follows_live() {
    let mut stream = EventStream::replay(vec![CoreEvent::Delta { text: "a".into() }]);
    assert!(stream.is_live());
    assert_eq!(
        stream.next_replayed(),
        Some(CoreEvent::Delta { text: "a".into() })
    );
    assert_eq!(stream.next_replayed(), None);
    assert_eq!(
        stream.receive_live(LiveItem::Event(CoreEvent::Delta { text: "b".into() })),
        Some(Ok(CoreEvent::Delta { text: "b".into() }))
    );
    assert!(stream.receive_live(LiveItem::Pending).is_none());
    assert_eq!(
        stream.receive_live(LiveItem::Closed),
        Some(Err(RecvError::Closed))
    );
}

#[test]
fn closed_event_stream_ends_immediately() {
    let mut stream = EventStream::closed();
    assert_eq!(stream.next_replayed(), None);
    assert_eq!(
        stream.receive_live(LiveItem::Pending),
        Some(Err(RecvError::Closed))
    );
    assert!(matches!(stream.poll_live(LiveItem::Pending), Polled::Ended));
}

#[test]
fn a_lagged_stream_closes_so_the_subscriber_can_replay() {
    let mut stream = EventStream::live();
    assert_eq!(
        stream.receive_live(LiveItem::Lagged(2)),
        Some(Err(RecvError::Lagged(2)))
    );
    assert!(
        matches!(stream.poll_live(LiveItem::Lagged(2)), Polled::Ended),
        "a lagged stream must close instead of silently skipping events"
    );
    let next = LiveItem::Event(CoreEvent::Delta { text: "x".into() });
    assert!(matches!(stream.poll_live(next), Polled::Ended));
}

#[test]
fn a_live_stream_hands_out_events_as_they_come() {
    let mut stream = EventStream::live();
    assert!(matches!(stream.poll_live(LiveItem::Pending), Polled::Pending));
    match stream.poll_live(LiveItem::Event(CoreEvent::Delta { text: "x".into() })) {
        Polled::Event(event) => assert_eq!(event, CoreEvent::Delta { text: "x".into() }),
        other => panic!("expected the queued delta, got {other:?}"),
    }
    assert!(matches!(stream.poll_live(LiveItem::Closed), Polled::Ended));
}

#[test]
fn the_turn_buffer_keeps_the_newest_events() {
    let mut buffer = TurnBuffer::new();
    for i in 0..TURN_BUFFER_CAPACITY + 3 {
        buffer.push(CoreEvent::Delta { text: format!("{i}") });
    }
    let events = buffer.snapshot();
    assert_eq!(events.len(), TURN_BUFFER_CAPACITY);
    assert_eq!(events[0], CoreEvent::Delta { text: "3".into() });
    assert_eq!(
        events[TURN_BUFFER_CAPACITY - 1],
        CoreEvent::Delta { text: format!("{}", TURN_BUFFER_CAPACITY + 2) }
    );
}

#[test]
fn an_event_reads_back_through_the_reader_for_any_type() {
    let event = CoreEvent::Reasoning { text: "why".into() };
    let back = <CoreEvent as FromJson>::from_json(&event.to_json()).unwrap();
    assert_eq!(back, event);
}

#[test]
fn events_are_read_from_lists_too() {
    let read = |text: &str| CoreEvent::from_text(text);
    assert_eq!(read(r#"["delta", "x"]"#), Some(CoreEvent::Delta { text: "x".into() }));
    assert_eq!(read(r#"["turn_done", null]"#), Some(CoreEvent::TurnDone { usage: None }));
    assert_eq!(
        read(r#"["turn_done", [1, 2]]"#),
        Some(CoreEvent::TurnDone {
            usage: Some(Usage {
                input_tokens: Some(1),
                output_tokens: Some(2),
                total_tokens: None
            })
        })
    );
    assert_eq!(
        read(r#"["approval_request", "a", ["memory_write", "p"], "s"]"#),
        Some(CoreEvent::ApprovalRequest {
            id: "a".into(),
            kind: ApprovalKind::MemoryWrite { path: "p".into() },
            summary: "s".into()
        })
    );
    for bad in ["[]", r#"["delta"]"#, r#"["delta", "x", 1]"#, r#"["turn_done"]"#, r#"["nope", 1]"#] {
        assert_eq!(read(bad), None, "{bad}");
    }
}

use agent_core::conversations::{id_of_file, migrate, FileRead, FileRemoval, Loaded};
use agent_core::json::Json;
use agent_core::time::{now_rfc3339, now_unix, rfc3339_from_unix};
use agent_core::{
    ApiErrorKind, Artifact, ChatMessage, Conversation, ConversationStore, StoredMessage, ToolCall,
    Usage, CONVERSATION_SCHEMA_VERSION,
};

const NOW: &str = "2026-01-01T00:00:00Z";

fn sample(id: &str) -> Conversation {
    Conversation {
        schema: CONVERSATION_SCHEMA_VERSION,
        id: id.into(),
        title: Some("hello".into()),
        created_at: rfc3339_from_unix(1_000_000_000),
        updated_at: rfc3339_from_unix(1_000_000_000),
        summary: None,
        messages: vec![
            StoredMessage::from_chat(&ChatMessage::user("hello")),
            StoredMessage::from_chat(&ChatMessage::assistant("Hello!")),
        ],
        usage: Usage {
            input_tokens: Some(10),
            output_tokens: Some(5),
            total_tokens: Some(15),
        },
    }
}

fn store() -> ConversationStore {
    ConversationStore::new("data/conversations")
}

fn found(store: &ConversationStore, id: &str, text: String) -> Conversation {
    match store.load(id, FileRead::Text(text)).unwrap() {
        Loaded::Found(c) => c,
        other => panic!("expected a conversation, got {other:?}"),
    }
}

fn quarantined(store: &ConversationStore, text: String) -> String {
    match store.load("default", FileRead::Text(text)).unwrap() {
        Loaded::Quarantine { from, to } => {
            assert_eq!(from, "data/conversations/default.json");
            to
        }
        other => panic!("expected a quarantine, got {other:?}"),
    }
}

#[test]
fn save_and_load_round_trip() {
    let store = store();
    let (path, text) = store.save(&sample("default"), NOW).unwrap();
    assert_eq!(path, "data/conversations/default.json");
    let loaded = found(&store, "default", text);
    assert_eq!(loaded.messages, sample("default").messages);
    assert_eq!(loaded.messages[0].to_chat(), ChatMessage::user("hello"));
    // `save` stamps a fresh `updatedAt`.
    assert_ne!(loaded.updated_at, sample("default").updated_at);
    assert!(loaded.updated_at > loaded.created_at);
    assert!(matches!(
        store.load("missing", FileRead::Missing).unwrap(),
        Loaded::Absent
    ));
}

#[test]
fn saved_file_matches_the_planned_wire_schema() {
    let (_, text) = store().save(&sample("default"), NOW).unwrap();
    let json = Json::parse(&text).unwrap();
    assert_eq!(json.get("schema"), Some(&Json::of_u64(3)));
    assert_eq!(json.get("id"), Some(&Json::of_str("default")));
    assert_eq!(json.get("createdAt"), Some(&Json::of_str("2001-09-09T01:46:40Z")));
    assert_eq!(json.get("updatedAt"), Some(&Json::of_str(NOW)));
    assert_eq!(json.get("summary"), None);
    let messages = match json.get("messages") {
        Some(Json::Array(v)) => v,
        other => panic!("messages must be a list: {other:?}"),
    };
    assert_eq!(messages[0].get("role"), Some(&Json::of_str("user")));
    assert_eq!(messages[0].get("content"), Some(&Json::of_str("hello")));
    assert_eq!(
        json.get("usage").unwrap().get("input_tokens"),
        Some(&Json::of_u64(10))
    );
}

#[test]
fn a_v1_file_migrates_to_v3_with_no_data_loss() {
    // A v1 file: schema 1, no `updatedAt` field at all.
    let v1 = r#"{
        "schema": 1,
        "id": "default",
        "title": "old thread",
        "createdAt": "2001-09-09T01:46:40Z",
        "summary": null,
        "messages": [
            {"role": "user", "content": "hello"},
            {"role": "assistant", "content": "Hello!"}
        ],
        "usage": {"input_tokens": 10, "output_tokens": 5}
    }"#;
    let loaded = found(&store(), "default", v1.to_string());
    assert_eq!(loaded.schema, 3);
    assert_eq!(loaded.updated_at, "2001-09-09T01:46:40Z");
    assert_eq!(loaded.created_at, "2001-09-09T01:46:40Z");
    assert_eq!(loaded.title.as_deref(), Some("old thread"));
    assert_eq!(loaded.messages.len(), 2);
    assert!(loaded.messages[0].artifacts.is_empty());
    assert_eq!(loaded.usage.input_tokens, Some(10));
}

#[test]
fn artifacts_round_trip_with_camel_case_mime_hints() {
    let mut conversation = sample("default");
    conversation.messages[0] = StoredMessage::from_chat(
        &ChatMessage::user("look at this")
            .with_artifacts(vec![Artifact::new("photo.png", Some("image/png"))]),
    );
    conversation.messages[1] = StoredMessage::from_chat(
        &ChatMessage::assistant("done").with_artifacts(vec![Artifact::new("rotated.png", None)]),
    );
    let (_, text) = store().save(&conversation, NOW).unwrap();
    assert!(text.contains("\"mimeHint\": \"image/png\""));
    assert_eq!(text.matches("mimeHint").count(), 1);

    let loaded = found(&store(), "default", text);
    assert_eq!(
        loaded.messages[0].to_chat().artifacts,
        vec![Artifact::new("photo.png", Some("image/png"))]
    );
    assert_eq!(
        loaded.messages[1].to_chat().artifacts,
        vec![Artifact::new("rotated.png", None)]
    );
}

#[test]
fn a_v2_file_loads_as_v3_with_empty_artifacts() {
    let v2 = sample("default").to_json().with("schema", Json::of_u64(2));
    let loaded = found(&store(), "default", v2.to_pretty_text());
    assert_eq!(loaded.schema, 3);
    assert_eq!(loaded.messages.len(), 2);
    assert!(loaded.messages.iter().all(|m| m.artifacts.is_empty()));
}

#[test]
fn list_returns_threads_newest_first() {
    let mut older = sample("older");
    older.updated_at = "2020-01-01T00:00:00Z".into();
    let mut newer = sample("newer");
    newer.updated_at = "2024-01-01T00:00:00Z".into();
    let listed: Vec<String> = store()
        .list(vec![older, newer])
        .into_iter()
        .map(|c| c.id)
        .collect();
    assert_eq!(listed, vec!["newer".to_owned(), "older".to_owned()]);
}

#[test]
fn list_skips_foreign_files_and_is_empty_when_absent() {
    assert!(store().list(vec![]).is_empty());
    assert_eq!(id_of_file("notes.txt"), None);
    assert_eq!(id_of_file("bad id.json"), None);
    assert_eq!(id_of_file("default.json.quarantine"), None);
    assert_eq!(id_of_file("default.json").as_deref(), Some("default"));
}

#[test]
fn delete_removes_the_file_and_is_idempotent() {
    let store = store();
    assert_eq!(store.path_for("default").unwrap(), "data/conversations/default.json");
    store.delete("default", FileRemoval::Removed).unwrap();
    store.delete("default", FileRemoval::Missing).unwrap(); // missing is a no-op
    let err = store
        .delete("default", FileRemoval::Failed("denied".into()))
        .unwrap_err();
    assert_eq!(err.kind, ApiErrorKind::Internal);
    assert_eq!(
        err.message,
        "cannot delete data/conversations/default.json: denied"
    );
    assert!(store.delete("../x", FileRemoval::Removed).is_err());
}

#[test]
fn save_overwrites_the_previous_version_in_place() {
    let mut updated = sample("default");
    updated
        .messages
        .push(StoredMessage::from_chat(&ChatMessage::user("again")));
    let (path, text) = store().save(&updated, NOW).unwrap();
    assert_eq!(path, store().save(&sample("default"), NOW).unwrap().0);
    assert_eq!(found(&store(), "default", text).messages.len(), 3);
}

#[test]
fn unreadable_files_are_quarantined_not_fatal() {
    let to = quarantined(&store(), "{not json at all".to_string());
    assert_eq!(to, "data/conversations/default.json.quarantine");
}

#[test]
fn a_file_that_is_no_text_is_quarantined_too() {
    let failure = "stream did not contain valid UTF-8".to_string();
    match store().load("default", FileRead::Failed(failure)).unwrap() {
        Loaded::Quarantine { from, to } => {
            assert_eq!(from, "data/conversations/default.json");
            assert_eq!(to, "data/conversations/default.json.quarantine");
        }
        other => panic!("expected a quarantine, got {other:?}"),
    }
    assert!(store().load("../x", FileRead::Failed("denied".into())).is_err());
}

#[test]
fn unknown_schema_versions_are_quarantined() {
    let mut future = sample("default");
    future.schema = 99;
    quarantined(&store(), future.to_json().to_text());
    quarantined(&store(), "{}".to_string());
}

#[test]
fn a_schema_version_wider_than_u32_does_not_wrap_into_a_valid_one() {
    // 2^32 + 2 truncated to u32 would look exactly like a valid v2 file.
    let value = sample("default")
        .to_json()
        .with("schema", Json::of_u64(4_294_967_298));
    quarantined(&store(), value.to_text());
    assert!(migrate(&value.to_text()).is_err());
}

#[test]
fn path_trick_ids_are_rejected() {
    let store = store();
    for id in ["", "../escape", "a/b", ".hidden", "with space", "dot.id"] {
        assert!(
            store.save(&sample(id), NOW).is_err(),
            "id {id:?} must be rejected"
        );
        assert!(
            store.load(id, FileRead::Missing).is_err(),
            "id {id:?} must be rejected"
        );
    }
    assert!(store.path_for(&"x".repeat(128)).is_ok());
    assert!(store.path_for(&"x".repeat(129)).is_err());
}

#[test]
fn rfc3339_helper_matches_known_timestamps() {
    assert_eq!(rfc3339_from_unix(0), "1970-01-01T00:00:00Z");
    assert_eq!(rfc3339_from_unix(1_000_000_000), "2001-09-09T01:46:40Z");
    assert_eq!(rfc3339_from_unix(1_759_011_840), "2025-09-27T22:24:00Z");
    assert_eq!(rfc3339_from_unix(951_782_399), "2000-02-28T23:59:59Z");
    // Leap day: 2000-02-29 existed (divisible by 400).
    assert_eq!(rfc3339_from_unix(951_868_800), "2000-03-01T00:00:00Z");
}

#[test]
fn the_clock_is_past_the_start_of_this_project() {
    assert!(now_unix() > 1_700_000_000);
    assert!(now_rfc3339().as_str() > "2023-11-14T00:00:00Z");
}

#[test]
fn a_message_with_tool_calls_survives_the_store() {
    let mut conversation = sample("default");
    let call = ToolCall::new("c1", "web_search", Json::parse(r#"{"q":1,"a":[true]}"#).unwrap());
    let mut asking = ChatMessage::assistant_with_tool_calls("", vec![call]);
    asking = asking.with_reasoning("hm");
    conversation.messages = vec![
        StoredMessage::from_chat(&asking),
        StoredMessage::from_chat(&ChatMessage::tool("c1", "result")),
    ];
    conversation.summary = Some("earlier".into());
    let (_, text) = store().save(&conversation, NOW).unwrap();
    let loaded = found(&store(), "default", text);
    assert_eq!(loaded.messages[0].to_chat(), asking);
    assert_eq!(loaded.messages[1].to_chat(), ChatMessage::tool("c1", "result"));
    assert_eq!(loaded.summary.as_deref(), Some("earlier"));
}

#[test]
fn the_file_lists_its_fields_in_a_fixed_order() {
    let mut conversation = sample("c1");
    conversation.summary = Some("short".into());
    conversation.messages = vec![StoredMessage::from_chat(&ChatMessage::user("hi"))];
    assert_eq!(
        conversation.to_json().to_text(),
        [
            r#"{"schema":3,"id":"c1","title":"hello","createdAt":"2001-09-09T01:46:40Z","#,
            r#""updatedAt":"2001-09-09T01:46:40Z","summary":"short","#,
            r#""messages":[{"role":"user","content":"hi"}],"#,
            r#""usage":{"input_tokens":10,"output_tokens":5,"total_tokens":15}}"#,
        ]
        .concat()
    );
}

#[test]
fn stored_messages_are_read_from_lists_too() {
    let text = r#"{"schema": 3, "id": "c", "createdAt": "t",
        "messages": [["user", "hi"], ["assistant", "", null, [["c1", "t"]], "why"]]}"#;
    let loaded = found(&store(), "c", text.to_string());
    assert_eq!(loaded.messages[0].to_chat(), ChatMessage::user("hi"));
    assert_eq!(loaded.messages[1].reasoning.as_deref(), Some("why"));
    let calls = loaded.messages[1].tool_calls.as_ref().unwrap();
    assert_eq!(calls[0], ToolCall::new("c1", "t", Json::Null));
    quarantined(&store(), r#"{"schema": 3, "id": "c", "createdAt": "t", "messages": [["user"]]}"#.into());
    quarantined(&store(), r#"[3, "c", null, "t"]"#.into());
}

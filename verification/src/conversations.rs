//! Conversations as they are stored: one JSON file per conversation, with a
//! schema version. What cannot be read is set aside, never fatal.

use vstd::prelude::*;

use crate::error::{ApiError, ApiErrorKind, ApiErrorView};
use crate::events::{Artifact, ArtifactView, Usage};
use crate::fields::{read_list, read_opt_str, read_str, read_str_or, read_u64, FromJson, Record};
use crate::json::{Json, JsonView};
use crate::llm::types::{
    copy_calls, ChatMessage, ChatMessageView, Role, ToolCall, ToolCallView,
};
use crate::order::Ranked;
use crate::paths::join_path;
use crate::text::{alnum, chars_of, copy_opt, decimal_of, ends_with, less, quote, string_of};

pub use crate::time::{now_rfc3339, rfc3339_from_unix};

verus! {

/// The version that conversation files are written in.
pub const CONVERSATION_SCHEMA_VERSION: u32 = 3;

/// How deep the arguments of a stored tool call may be nested.
pub const STORED_NESTING: u64 = 122;

/// A workspace file as it is stored.
#[derive(Debug, PartialEq, Eq)]
pub struct StoredArtifact {
    pub path: String,
    pub mime_hint: Option<String>,
}

impl View for StoredArtifact {
    type V = ArtifactView;

    open spec fn view(&self) -> ArtifactView {
        ArtifactView { path: self.path@, mime_hint: crate::text::opt_text(self.mime_hint) }
    }
}

impl Clone for StoredArtifact {
    fn clone(&self) -> (r: Self)
        ensures
            r@ == self@,
    {
        StoredArtifact { path: self.path.clone(), mime_hint: copy_opt(&self.mime_hint) }
    }
}

impl StoredArtifact {
    /// The stored form of an artifact.
    pub fn from_artifact(artifact: &Artifact) -> (r: StoredArtifact)
        ensures
            r@ == artifact@,
    {
        StoredArtifact { path: artifact.path.clone(), mime_hint: copy_opt(&artifact.mime_hint) }
    }

    /// The artifact.
    pub fn to_artifact(&self) -> (r: Artifact)
        ensures
            r@ == self@,
    {
        Artifact { path: self.path.clone(), mime_hint: copy_opt(&self.mime_hint) }
    }
}

/// The fields of a stored artifact.
pub open spec fn artifact_fields(a: ArtifactView) -> Seq<crate::json::FieldView> {
    seq![crate::json::entry("path"@, JsonView::Str(a.path))] + crate::fields::text_field(
        "mimeHint"@,
        a.mime_hint,
    )
}

/// The JSON form of a stored artifact.
pub open spec fn artifact_json(a: ArtifactView) -> JsonView {
    crate::json::object(artifact_fields(a))
}

impl Record for StoredArtifact {
    open spec fn names() -> Seq<Seq<char>> {
        seq!["path"@, "mimeHint"@]
    }

    open spec fn of_object(j: JsonView) -> Option<ArtifactView> {
        match (
            crate::fields::str_at(j, "path"@),
            crate::fields::opt_str_at(j, "mimeHint"@),
        ) {
            (Some(path), Some(mime_hint)) => Some(
                ArtifactView { path: path, mime_hint: mime_hint },
            ),
            _ => None,
        }
    }

    fn field_names() -> (r: Vec<&'static str>) {
        let r: Vec<&'static str> = vec!["path", "mimeHint"];
        assert(crate::fields::names_of(r@) =~= Self::names());
        r
    }

    fn from_object(j: &Json) -> (r: Option<StoredArtifact>) {
        match (read_str(j, "path"), read_opt_str(j, "mimeHint")) {
            (Some(path), Some(mime_hint)) => Some(StoredArtifact { path, mime_hint }),
            _ => None,
        }
    }
}

impl StoredArtifact {
    /// The JSON form.
    pub fn to_json(&self) -> (r: Json)
        ensures
            r@ == artifact_json(self@),
    {
        let ghost f = |f: (&str, Json)| crate::json::entry(f.0@, f.1@);
        let mut fields: Vec<(&str, Json)> = vec![("path", Json::Str(self.path.clone()))];
        if let Some(m) = &self.mime_hint {
            fields.push(("mimeHint", Json::Str(m.clone())));
        }
        assert(fields@.map_values(f) =~= artifact_fields(self@));
        Json::of_fields(fields)
    }
}

/// The JSON form of a stored tool call: its arguments stand there as they are.
pub open spec fn stored_call_json(c: ToolCallView) -> JsonView {
    crate::json::object(stored_call_fields(c))
}

/// The fields of a stored tool call.
pub open spec fn stored_call_fields(c: ToolCallView) -> Seq<crate::json::FieldView> {
    seq![
        crate::json::entry("id"@, JsonView::Str(c.id)),
        crate::json::entry("name"@, JsonView::Str(c.name)),
        crate::json::entry("arguments"@, c.arguments),
    ]
}

impl Record for ToolCall {
    open spec fn names() -> Seq<Seq<char>> {
        seq!["id"@, "name"@, "arguments"@]
    }

    open spec fn of_object(j: JsonView) -> Option<ToolCallView> {
        match (crate::fields::str_at(j, "id"@), crate::fields::str_at(j, "name"@)) {
            (Some(id), Some(name)) => Some(
                ToolCallView {
                    id: id,
                    name: name,
                    arguments: match crate::fields::member(j, "arguments"@) {
                        Some(x) => x,
                        None => JsonView::Null,
                    },
                },
            ),
            _ => None,
        }
    }

    fn field_names() -> (r: Vec<&'static str>) {
        let r: Vec<&'static str> = vec!["id", "name", "arguments"];
        assert(crate::fields::names_of(r@) =~= Self::names());
        r
    }

    fn from_object(j: &Json) -> (r: Option<ToolCall>) {
        let arguments: Json = match j.get("arguments") {
            Some(x) => x.copy(),
            None => Json::Null,
        };
        match (read_str(j, "id"), read_str(j, "name")) {
            (Some(id), Some(name)) => Some(ToolCall { id, name, arguments }),
            _ => None,
        }
    }
}

/// The JSON form of a stored tool call.
pub(crate) fn stored_call_to_json(c: &ToolCall) -> (r: Json)
    ensures
        r@ == stored_call_json(c@),
{
    let ghost f = |f: (&str, Json)| crate::json::entry(f.0@, f.1@);
    let fields: Vec<(&str, Json)> = vec![
        ("id", Json::Str(c.id.clone())),
        ("name", Json::Str(c.name.clone())),
        ("arguments", c.arguments.copy()),
    ];
    assert(fields@.map_values(f) =~= stored_call_fields(c@));
    Json::of_fields(fields)
}

/// One stored message.
#[derive(Debug, PartialEq, Eq)]
pub struct StoredMessage {
    pub role: Role,
    pub content: String,
    pub tool_call_id: Option<String>,
    pub tool_calls: Option<Vec<ToolCall>>,
    pub reasoning: Option<String>,
    pub artifacts: Vec<StoredArtifact>,
}

impl View for StoredMessage {
    type V = ChatMessageView;

    open spec fn view(&self) -> ChatMessageView {
        ChatMessageView {
            role: self.role,
            content: self.content@,
            reasoning: crate::text::opt_text(self.reasoning),
            tool_calls: crate::llm::types::opt_call_views(self.tool_calls),
            tool_call_id: crate::text::opt_text(self.tool_call_id),
            artifacts: crate::fields::views_of(self.artifacts@),
        }
    }
}

impl Clone for StoredMessage {
    fn clone(&self) -> (r: Self)
        ensures
            r@ == self@,
    {
        let calls: Option<Vec<ToolCall>> = match &self.tool_calls {
            Some(v) => Some(copy_calls(v)),
            None => None,
        };
        let mut artifacts: Vec<StoredArtifact> = Vec::new();
        let mut i: usize = 0;
        while i < self.artifacts.len()
            invariant
                i <= self.artifacts.len(),
                artifacts@.len() == i,
                forall|k: int| 0 <= k < i ==> (#[trigger] artifacts@[k])@ == self.artifacts@[k]@,
            decreases self.artifacts.len() - i,
        {
            artifacts.push(self.artifacts[i].clone());
            i = i + 1;
        }
        assert(crate::fields::views_of(artifacts@) =~= self@.artifacts);
        StoredMessage {
            role: self.role,
            content: self.content.clone(),
            tool_call_id: copy_opt(&self.tool_call_id),
            tool_calls: calls,
            reasoning: copy_opt(&self.reasoning),
            artifacts,
        }
    }
}

impl StoredMessage {
    /// The stored form of a message.
    pub fn from_chat(message: &ChatMessage) -> (r: StoredMessage)
        ensures
            r@ == message@,
    {
        let calls: Option<Vec<ToolCall>> = match &message.tool_calls {
            Some(v) => Some(copy_calls(v)),
            None => None,
        };
        let mut artifacts: Vec<StoredArtifact> = Vec::new();
        let mut i: usize = 0;
        while i < message.artifacts.len()
            invariant
                i <= message.artifacts.len(),
                artifacts@.len() == i,
                forall|k: int|
                    0 <= k < i ==> (#[trigger] artifacts@[k])@ == message.artifacts@[k]@,
            decreases message.artifacts.len() - i,
        {
            artifacts.push(StoredArtifact::from_artifact(&message.artifacts[i]));
            i = i + 1;
        }
        assert(crate::fields::views_of(artifacts@) =~= message@.artifacts);
        StoredMessage {
            role: message.role,
            content: message.content.clone(),
            tool_call_id: copy_opt(&message.tool_call_id),
            tool_calls: calls,
            reasoning: copy_opt(&message.reasoning),
            artifacts,
        }
    }

    /// The message.
    pub fn to_chat(&self) -> (r: ChatMessage)
        ensures
            r@ == self@,
    {
        let calls: Option<Vec<ToolCall>> = match &self.tool_calls {
            Some(v) => Some(copy_calls(v)),
            None => None,
        };
        let mut artifacts: Vec<Artifact> = Vec::new();
        let mut i: usize = 0;
        while i < self.artifacts.len()
            invariant
                i <= self.artifacts.len(),
                artifacts@.len() == i,
                forall|k: int| 0 <= k < i ==> (#[trigger] artifacts@[k])@ == self.artifacts@[k]@,
            decreases self.artifacts.len() - i,
        {
            artifacts.push(self.artifacts[i].to_artifact());
            i = i + 1;
        }
        assert(crate::events::artifact_views(artifacts@) =~= self@.artifacts);
        ChatMessage {
            role: self.role,
            content: self.content.clone(),
            reasoning: copy_opt(&self.reasoning),
            tool_calls: calls,
            tool_call_id: copy_opt(&self.tool_call_id),
            artifacts,
        }
    }
}

/// The field of tool calls that are there.
pub open spec fn calls_field(o: Option<Seq<ToolCallView>>) -> Seq<crate::json::FieldView> {
    match o {
        Some(calls) => seq![
            crate::json::entry(
                "toolCalls"@,
                JsonView::Array(calls.map_values(|c: ToolCallView| stored_call_json(c))),
            ),
        ],
        None => seq![],
    }
}

/// The field of artifacts, where there are any.
pub open spec fn artifacts_field(a: Seq<ArtifactView>) -> Seq<crate::json::FieldView> {
    if a.len() == 0 {
        seq![]
    } else {
        seq![
            crate::json::entry(
                "artifacts"@,
                JsonView::Array(a.map_values(|x: ArtifactView| artifact_json(x))),
            ),
        ]
    }
}

/// The fields of a stored message: what is missing is left out.
pub open spec fn stored_fields(m: ChatMessageView) -> Seq<crate::json::FieldView> {
    seq![
        crate::json::entry("role"@, JsonView::Str(crate::llm::types::role_name(m.role))),
        crate::json::entry("content"@, JsonView::Str(m.content)),
    ] + crate::fields::text_field("toolCallId"@, m.tool_call_id) + calls_field(m.tool_calls)
        + crate::fields::text_field("reasoning"@, m.reasoning) + artifacts_field(m.artifacts)
}

/// The JSON form of a stored message.
pub open spec fn stored_json(m: ChatMessageView) -> JsonView {
    crate::json::object(stored_fields(m))
}

/// The role in a field.
pub open spec fn role_at(j: JsonView, key: Seq<char>) -> Option<Role> {
    match crate::fields::str_at(j, key) {
        Some(s) => crate::llm::types::role_named(s),
        None => None,
    }
}

/// The tool calls in a field that may be missing.
pub open spec fn opt_calls_at(j: JsonView, key: Seq<char>) -> Option<Option<Seq<ToolCallView>>> {
    match crate::fields::member(j, key) {
        None => Some(None),
        Some(JsonView::Null) => Some(None),
        Some(JsonView::Array(a)) => match crate::fields::all_of::<ToolCall>(a) {
            Some(v) => Some(Some(v)),
            None => None,
        },
        _ => None,
    }
}

/// The content of optional tool calls that were read, or not.
pub open spec fn opt_opt_calls(o: Option<Option<Vec<ToolCall>>>) -> Option<
    Option<Seq<ToolCallView>>,
> {
    match o {
        Some(x) => Some(crate::llm::types::opt_call_views(x)),
        None => None,
    }
}

/// Reads the tool calls in a field that may be missing.
pub(crate) fn read_opt_calls(j: &Json, key: &str) -> (r: Option<Option<Vec<ToolCall>>>)
    ensures
        opt_opt_calls(r) == opt_calls_at(j@, key@),
{
    match j.get(key) {
        None => Some(None),
        Some(x) => match x {
            Json::Null => Some(None),
            Json::Array(a) => {
                proof {
                    crate::json::lemma_array_view(*x);
                }
                match crate::fields::read_all::<ToolCall>(a) {
                    Some(v) => {
                        assert(crate::fields::views_of(v@) =~= crate::llm::types::call_views(v@));
                        Some(Some(v))
                    },
                    None => None,
                }
            },
            _ => None,
        },
    }
}

impl Record for StoredMessage {
    open spec fn names() -> Seq<Seq<char>> {
        seq!["role"@, "content"@, "toolCallId"@, "toolCalls"@, "reasoning"@, "artifacts"@]
    }

    open spec fn of_object(j: JsonView) -> Option<ChatMessageView> {
        match (
            role_at(j, "role"@),
            crate::fields::str_at(j, "content"@),
            crate::fields::opt_str_at(j, "toolCallId"@),
            opt_calls_at(j, "toolCalls"@),
            crate::fields::opt_str_at(j, "reasoning"@),
            crate::fields::list_at::<StoredArtifact>(j, "artifacts"@),
        ) {
            (Some(role), Some(content), Some(id), Some(calls), Some(reasoning), Some(artifacts)) =>
            Some(
                ChatMessageView {
                    role: role,
                    content: content,
                    reasoning: reasoning,
                    tool_calls: calls,
                    tool_call_id: id,
                    artifacts: artifacts,
                },
            ),
            _ => None,
        }
    }

    fn field_names() -> (r: Vec<&'static str>) {
        let r: Vec<&'static str> = vec![
            "role",
            "content",
            "toolCallId",
            "toolCalls",
            "reasoning",
            "artifacts",
        ];
        assert(crate::fields::names_of(r@) =~= Self::names());
        r
    }

    fn from_object(j: &Json) -> (r: Option<StoredMessage>) {
        let role: Option<Role> = match read_str(j, "role") {
            Some(s) => Role::named(s.as_str()),
            None => None,
        };
        match (
            role,
            read_str(j, "content"),
            read_opt_str(j, "toolCallId"),
            read_opt_calls(j, "toolCalls"),
            read_opt_str(j, "reasoning"),
            read_list::<StoredArtifact>(j, "artifacts"),
        ) {
            (Some(role), Some(content), Some(id), Some(calls), Some(reasoning), Some(artifacts)) =>
            Some(
                StoredMessage {
                    role,
                    content,
                    tool_call_id: id,
                    tool_calls: calls,
                    reasoning,
                    artifacts,
                },
            ),
            _ => None,
        }
    }
}

impl StoredMessage {
    /// The JSON form.
    pub fn to_json(&self) -> (r: Json)
        ensures
            r@ == stored_json(self@),
    {
        let ghost f = |f: (&str, Json)| crate::json::entry(f.0@, f.1@);
        let mut fields: Vec<(&str, Json)> = vec![
            ("role", Json::of_str(self.role.wire_name())),
            ("content", Json::Str(self.content.clone())),
        ];
        let ghost one = seq![
            crate::json::entry("role"@, JsonView::Str(crate::llm::types::role_name(self.role))),
            crate::json::entry("content"@, JsonView::Str(self.content@)),
        ];
        assert(fields@.map_values(f) =~= one);
        if let Some(id) = &self.tool_call_id {
            fields.push(("toolCallId", Json::Str(id.clone())));
        }
        let ghost two = crate::fields::text_field("toolCallId"@, self@.tool_call_id);
        assert(fields@.map_values(f) =~= one + two);
        if let Some(calls) = &self.tool_calls {
            let mut items: Vec<Json> = Vec::new();
            let mut i: usize = 0;
            while i < calls.len()
                invariant
                    i <= calls.len(),
                    items@.len() == i,
                    forall|k: int|
                        0 <= k < i ==> (#[trigger] items@[k])@ == stored_call_json(calls@[k]@),
                decreases calls.len() - i,
            {
                items.push(stored_call_to_json(&calls[i]));
                i = i + 1;
            }
            let array = Json::Array(items);
            proof {
                crate::json::lemma_array_view(array);
                assert(crate::json::views(items@) =~= self@.tool_calls->0.map_values(
                    |c: ToolCallView| stored_call_json(c),
                ));
            }
            fields.push(("toolCalls", array));
        }
        let ghost three = calls_field(self@.tool_calls);
        assert(fields@.map_values(f) =~= one + two + three);
        if let Some(reasoning) = &self.reasoning {
            fields.push(("reasoning", Json::Str(reasoning.clone())));
        }
        let ghost four = crate::fields::text_field("reasoning"@, self@.reasoning);
        assert(fields@.map_values(f) =~= one + two + three + four);
        if self.artifacts.len() > 0 {
            let mut items: Vec<Json> = Vec::new();
            let mut i: usize = 0;
            while i < self.artifacts.len()
                invariant
                    i <= self.artifacts.len(),
                    items@.len() == i,
                    forall|k: int|
                        0 <= k < i ==> (#[trigger] items@[k])@ == artifact_json(
                            self.artifacts@[k]@,
                        ),
                decreases self.artifacts.len() - i,
            {
                items.push(self.artifacts[i].to_json());
                i = i + 1;
            }
            let array = Json::Array(items);
            proof {
                crate::json::lemma_array_view(array);
                assert(crate::json::views(items@) =~= self@.artifacts.map_values(
                    |x: ArtifactView| artifact_json(x),
                ));
            }
            fields.push(("artifacts", array));
        }
        assert(fields@.map_values(f) =~= stored_fields(self@));
        Json::of_fields(fields)
    }
}

/// A stored artifact reads back as it was.
proof fn lemma_artifact_read(a: ArtifactView)
    ensures
        <StoredArtifact as FromJson>::of(artifact_json(a)) == Some(a),
{
    reveal_strlit("path");
    reveal_strlit("mimeHint");
    assert("path"@.len() == 4);
    assert("mimeHint"@.len() == 8);
    let all = artifact_fields(a);
    crate::json::lemma_collect_has(all, 0);
    if a.mime_hint is Some {
        crate::json::lemma_collect_has(all, 1);
    } else {
        crate::json::lemma_collect_lacks(all, "mimeHint"@);
    }
}

/// A stored tool call reads back as it was.
pub proof fn lemma_call_read(c: ToolCallView)
    ensures
        <ToolCall as FromJson>::of(stored_call_json(c)) == Some(c),
{
    reveal_strlit("id");
    reveal_strlit("name");
    reveal_strlit("arguments");
    assert("id"@.len() == 2);
    assert("name"@.len() == 4);
    assert("arguments"@.len() == 9);
    let all = stored_call_fields(c);
    crate::json::lemma_collect_has(all, 0);
    crate::json::lemma_collect_has(all, 1);
    crate::json::lemma_collect_has(all, 2);
}

/// A stored message reads back as it was.
pub proof fn message_round_trip(m: ChatMessageView)
    ensures
        <StoredMessage as FromJson>::of(stored_json(m)) == Some(m),
{
    reveal_strlit("role");
    reveal_strlit("content");
    reveal_strlit("toolCallId");
    reveal_strlit("toolCalls");
    reveal_strlit("reasoning");
    reveal_strlit("artifacts");
    assert("role"@.len() == 4);
    assert("content"@.len() == 7);
    assert("toolCallId"@.len() == 10);
    assert("toolCalls"@.len() == 9);
    assert("reasoning"@.len() == 9);
    assert("artifacts"@.len() == 9);
    assert("toolCalls"@[0] != "reasoning"@[0]);
    assert("toolCalls"@[0] != "artifacts"@[0]);
    assert("reasoning"@[0] != "artifacts"@[0]);
    let all = stored_fields(m);
    let a = crate::fields::text_field("toolCallId"@, m.tool_call_id).len() as int;
    let b = calls_field(m.tool_calls).len() as int;
    let c = crate::fields::text_field("reasoning"@, m.reasoning).len() as int;
    crate::json::lemma_collect_has(all, 0);
    crate::json::lemma_collect_has(all, 1);
    crate::llm::types::role_names_are_distinct(m.role);
    if m.tool_call_id is Some {
        crate::json::lemma_collect_has(all, 2);
    } else {
        crate::json::lemma_collect_lacks(all, "toolCallId"@);
    }
    if let Some(calls) = m.tool_calls {
        crate::json::lemma_collect_has(all, 2 + a);
        let js = calls.map_values(|c: ToolCallView| stored_call_json(c));
        assert forall|i: int| 0 <= i < js.len() implies <ToolCall as FromJson>::of(#[trigger] js[i])
            == Some(calls[i]) by {
            lemma_call_read(calls[i]);
        }
        crate::fields::lemma_all_of::<ToolCall>(js, calls);
    } else {
        crate::json::lemma_collect_lacks(all, "toolCalls"@);
    }
    if m.reasoning is Some {
        crate::json::lemma_collect_has(all, 2 + a + b);
    } else {
        crate::json::lemma_collect_lacks(all, "reasoning"@);
    }
    if m.artifacts.len() > 0 {
        crate::json::lemma_collect_has(all, 2 + a + b + c);
        let js = m.artifacts.map_values(|x: ArtifactView| artifact_json(x));
        assert forall|i: int| 0 <= i < js.len() implies <StoredArtifact as FromJson>::of(
            #[trigger] js[i],
        ) == Some(m.artifacts[i]) by {
            lemma_artifact_read(m.artifacts[i]);
        }
        crate::fields::lemma_all_of::<StoredArtifact>(js, m.artifacts);
    } else {
        crate::json::lemma_collect_lacks(all, "artifacts"@);
        assert(m.artifacts =~= seq![]);
    }
}

/// A whole conversation as it is stored.
#[derive(Debug, PartialEq, Eq)]
pub struct Conversation {
    pub schema: u32,
    pub id: String,
    pub title: Option<String>,
    pub created_at: String,
    /// The time of the last write; conversations are listed by it.
    pub updated_at: String,
    /// Summary of turns that fell out of the context window.
    pub summary: Option<String>,
    pub messages: Vec<StoredMessage>,
    /// Usage over all turns.
    pub usage: Usage,
}

/// The content of a [`Conversation`].
#[verifier::ext_equal]
pub struct ConversationView {
    pub schema: u32,
    pub id: Seq<char>,
    pub title: Option<Seq<char>>,
    pub created_at: Seq<char>,
    pub updated_at: Seq<char>,
    pub summary: Option<Seq<char>>,
    pub messages: Seq<ChatMessageView>,
    pub usage: Usage,
}

impl View for Conversation {
    type V = ConversationView;

    open spec fn view(&self) -> ConversationView {
        ConversationView {
            schema: self.schema,
            id: self.id@,
            title: crate::text::opt_text(self.title),
            created_at: self.created_at@,
            updated_at: self.updated_at@,
            summary: crate::text::opt_text(self.summary),
            messages: crate::fields::views_of(self.messages@),
            usage: self.usage,
        }
    }
}

impl Clone for Conversation {
    fn clone(&self) -> (r: Self)
        ensures
            r@ == self@,
    {
        let mut messages: Vec<StoredMessage> = Vec::new();
        let mut i: usize = 0;
        while i < self.messages.len()
            invariant
                i <= self.messages.len(),
                messages@.len() == i,
                forall|k: int| 0 <= k < i ==> (#[trigger] messages@[k])@ == self.messages@[k]@,
            decreases self.messages.len() - i,
        {
            messages.push(self.messages[i].clone());
            i = i + 1;
        }
        assert(crate::fields::views_of(messages@) =~= self@.messages);
        Conversation {
            schema: self.schema,
            id: self.id.clone(),
            title: copy_opt(&self.title),
            created_at: self.created_at.clone(),
            updated_at: self.updated_at.clone(),
            summary: copy_opt(&self.summary),
            messages,
            usage: self.usage,
        }
    }
}

/// The fields of a stored conversation.
pub open spec fn conversation_fields(c: ConversationView) -> Seq<crate::json::FieldView> {
    seq![
        crate::json::entry("schema"@, JsonView::U64(c.schema as u64)),
        crate::json::entry("id"@, JsonView::Str(c.id)),
    ] + crate::fields::text_field("title"@, c.title) + seq![
        crate::json::entry("createdAt"@, JsonView::Str(c.created_at)),
        crate::json::entry("updatedAt"@, JsonView::Str(c.updated_at)),
    ] + crate::fields::text_field("summary"@, c.summary) + seq![
        crate::json::entry(
            "messages"@,
            JsonView::Array(c.messages.map_values(|m: ChatMessageView| stored_json(m))),
        ),
        crate::json::entry("usage"@, crate::events_json::usage_json(c.usage)),
    ]
}

/// The JSON form of a conversation.
pub open spec fn conversation_json(c: ConversationView) -> JsonView {
    crate::json::object(conversation_fields(c))
}

/// The schema version in a field, as it is stored.
pub open spec fn schema_at(j: JsonView) -> Option<u32> {
    match crate::fields::u64_at(j, "schema"@) {
        Some(n) => if n <= u32::MAX {
            Some(n as u32)
        } else {
            None
        },
        None => None,
    }
}

/// The usage in a field that may be missing.
pub open spec fn usage_at(j: JsonView) -> Option<Usage> {
    match crate::fields::member(j, "usage"@) {
        None => Some(crate::events::no_usage()),
        Some(x) => crate::events_json::usage_of(x),
    }
}

impl Record for Conversation {
    open spec fn names() -> Seq<Seq<char>> {
        seq![
            "schema"@,
            "id"@,
            "title"@,
            "createdAt"@,
            "updatedAt"@,
            "summary"@,
            "messages"@,
            "usage"@,
        ]
    }

    open spec fn of_object(j: JsonView) -> Option<ConversationView> {
        match (
            schema_at(j),
            crate::fields::str_at(j, "id"@),
            crate::fields::opt_str_at(j, "title"@),
            crate::fields::str_at(j, "createdAt"@),
            crate::fields::str_or(j, "updatedAt"@, ""@),
            crate::fields::opt_str_at(j, "summary"@),
            crate::fields::list_at::<StoredMessage>(j, "messages"@),
            usage_at(j),
        ) {
            (
                Some(schema),
                Some(id),
                Some(title),
                Some(created_at),
                Some(updated_at),
                Some(summary),
                Some(messages),
                Some(usage),
            ) => Some(
                ConversationView {
                    schema: schema,
                    id: id,
                    title: title,
                    created_at: created_at,
                    updated_at: updated_at,
                    summary: summary,
                    messages: messages,
                    usage: usage,
                },
            ),
            _ => None,
        }
    }

    fn field_names() -> (r: Vec<&'static str>) {
        let r: Vec<&'static str> = vec![
            "schema",
            "id",
            "title",
            "createdAt",
            "updatedAt",
            "summary",
            "messages",
            "usage",
        ];
        assert(crate::fields::names_of(r@) =~= Self::names());
        r
    }

    fn from_object(j: &Json) -> (r: Option<Conversation>) {
        let schema: Option<u32> = match read_u64(j, "schema") {
            Some(n) => if n <= u32::MAX as u64 {
                Some(n as u32)
            } else {
                None
            },
            None => None,
        };
        let usage: Option<Usage> = match j.get("usage") {
            None => Some(Usage { input_tokens: None, output_tokens: None, total_tokens: None }),
            Some(x) => Usage::from_json(x),
        };
        match (
            schema,
            read_str(j, "id"),
            read_opt_str(j, "title"),
            read_str(j, "createdAt"),
            read_str_or(j, "updatedAt", ""),
            read_opt_str(j, "summary"),
            read_list::<StoredMessage>(j, "messages"),
            usage,
        ) {
            (
                Some(schema),
                Some(id),
                Some(title),
                Some(created_at),
                Some(updated_at),
                Some(summary),
                Some(messages),
                Some(usage),
            ) => Some(
                Conversation {
                    schema,
                    id,
                    title,
                    created_at,
                    updated_at,
                    summary,
                    messages,
                    usage,
                },
            ),
            _ => None,
        }
    }
}

/// A stored conversation reads back as it was.
pub proof fn conversation_round_trip(c: ConversationView)
    ensures
        <Conversation as FromJson>::of(conversation_json(c)) == Some(c),
{
    reveal_strlit("schema");
    reveal_strlit("id");
    reveal_strlit("createdAt");
    reveal_strlit("updatedAt");
    reveal_strlit("messages");
    reveal_strlit("usage");
    reveal_strlit("title");
    reveal_strlit("summary");
    assert("schema"@.len() == 6);
    assert("id"@.len() == 2);
    assert("createdAt"@.len() == 9);
    assert("updatedAt"@.len() == 9);
    assert("messages"@.len() == 8);
    assert("usage"@.len() == 5);
    assert("title"@.len() == 5);
    assert("summary"@.len() == 7);
    assert("createdAt"@[0] != "updatedAt"@[0]);
    assert("usage"@[0] != "title"@[0]);
    let all = conversation_fields(c);
    let a = crate::fields::text_field("title"@, c.title).len() as int;
    crate::json::lemma_collect_has(all, 0);
    crate::json::lemma_collect_has(all, 1);
    let b = crate::fields::text_field("summary"@, c.summary).len() as int;
    crate::json::lemma_collect_has(all, 2 + a);
    crate::json::lemma_collect_has(all, 3 + a);
    crate::json::lemma_collect_has(all, 4 + a + b);
    crate::json::lemma_collect_has(all, 5 + a + b);
    if c.title is Some {
        crate::json::lemma_collect_has(all, 2);
    } else {
        crate::json::lemma_collect_lacks(all, "title"@);
    }
    if c.summary is Some {
        crate::json::lemma_collect_has(all, 4 + a);
    } else {
        crate::json::lemma_collect_lacks(all, "summary"@);
    }
    let js = c.messages.map_values(|m: ChatMessageView| stored_json(m));
    assert forall|i: int| 0 <= i < js.len() implies <StoredMessage as FromJson>::of(#[trigger] js[i])
        == Some(c.messages[i]) by {
        message_round_trip(c.messages[i]);
    }
    crate::fields::lemma_all_of::<StoredMessage>(js, c.messages);
    crate::events_json::usage_round_trip(c.usage);
}

/// Whether the arguments of every tool call of a message can be stored exactly.
pub open spec fn message_storable(m: ChatMessageView) -> bool {
    m.tool_calls matches Some(calls) ==> forall|i: int|
        0 <= i < calls.len() ==> crate::json::tidy(
            (#[trigger] calls[i]).arguments,
            STORED_NESTING as nat,
        )
}

/// Whether a conversation can be stored exactly.
pub open spec fn storable(c: ConversationView) -> bool {
    forall|i: int| 0 <= i < c.messages.len() ==> message_storable(#[trigger] c.messages[i])
}

/// A stored message is tidy.
proof fn lemma_message_tidy(m: ChatMessageView)
    requires
        message_storable(m),
    ensures
        crate::json::tidy(stored_json(m), (STORED_NESTING + 3) as nat),
{
    let all = stored_fields(m);
    let d = (STORED_NESTING + 2) as nat;
    if let Some(calls) = m.tool_calls {
        let js = calls.map_values(|c: ToolCallView| stored_call_json(c));
        assert forall|i: int| 0 <= i < js.len() implies crate::json::tidy(
            #[trigger] js[i],
            (STORED_NESTING + 1) as nat,
        ) by {
            let fs = stored_call_fields(calls[i]);
            assert forall|k: int| 0 <= k < fs.len() implies crate::json::tidy(
                (#[trigger] fs[k]).value,
                STORED_NESTING as nat,
            ) by {}
            crate::json::lemma_tidy_object(fs, (STORED_NESTING + 1) as nat);
        }
        crate::json::lemma_tidy_array(js, d);
    }
    let js = m.artifacts.map_values(|x: ArtifactView| artifact_json(x));
    assert forall|i: int| 0 <= i < js.len() implies crate::json::tidy(
        #[trigger] js[i],
        (STORED_NESTING + 1) as nat,
    ) by {
        let fs = artifact_fields(m.artifacts[i]);
        assert forall|k: int| 0 <= k < fs.len() implies crate::json::tidy(
            (#[trigger] fs[k]).value,
            STORED_NESTING as nat,
        ) by {}
        crate::json::lemma_tidy_object(fs, (STORED_NESTING + 1) as nat);
    }
    crate::json::lemma_tidy_array(js, d);
    assert forall|i: int| 0 <= i < all.len() implies crate::json::tidy(
        (#[trigger] all[i]).value,
        d,
    ) by {}
    crate::json::lemma_tidy_object(all, (STORED_NESTING + 3) as nat);
}

/// A conversation that can be stored exactly reads back from its text.
proof fn lemma_conversation_tidy(c: ConversationView)
    requires
        storable(c),
    ensures
        crate::json::tidy(conversation_json(c), crate::json::MAX_NESTING as nat),
{
    let all = conversation_fields(c);
    let d = (STORED_NESTING + 4) as nat;
    let js = c.messages.map_values(|m: ChatMessageView| stored_json(m));
    assert forall|i: int| 0 <= i < js.len() implies crate::json::tidy(
        #[trigger] js[i],
        (STORED_NESTING + 3) as nat,
    ) by {
        assert(message_storable(c.messages[i]));
        lemma_message_tidy(c.messages[i]);
    }
    crate::json::lemma_tidy_array(js, d);
    crate::events_json::lemma_usage_fits(c.usage);
    assert forall|i: int| 0 <= i < all.len() implies crate::json::tidy(
        (#[trigger] all[i]).value,
        d,
    ) by {}
    crate::json::lemma_tidy_object(all, (STORED_NESTING + 5) as nat);
}

/// What a parsed file stands for.
pub open spec fn migrated(j: JsonView) -> Result<ConversationView, ApiErrorView> {
    match crate::fields::u64_at(j, "schema"@) {
        None => Err(internal("conversation file has no schema version"@)),
        Some(n) => if n == 0 {
            Err(internal("schema version 0 is not a valid conversation"@))
        } else if n > CONVERSATION_SCHEMA_VERSION {
            Err(
                internal(
                    "schema version "@ + crate::text::decimal(n as nat)
                        + " is unknown (this build speaks 3)"@,
                ),
            )
        } else {
            match <Conversation as FromJson>::of(upgraded(j, n)) {
                Some(c) => Ok(c),
                None => Err(internal("not a valid conversation file: unexpected shape"@)),
            }
        },
    }
}

/// An internal failure.
pub open spec fn internal(message: Seq<char>) -> ApiErrorView {
    crate::error::failure(ApiErrorKind::Internal, message)
}

/// An object with a field set.
pub open spec fn with_field(j: JsonView, key: Seq<char>, value: JsonView) -> JsonView {
    match j {
        JsonView::Object(o) => JsonView::Object(crate::json::put(o, key, value)),
        _ => j,
    }
}

/// A value, `null` where there is none.
pub open spec fn or_null(o: Option<JsonView>) -> JsonView {
    match o {
        Some(x) => x,
        None => JsonView::Null,
    }
}

/// Version 1 had no time of the last write: the time of creation stands in.
pub open spec fn to_version_two(j: JsonView) -> JsonView {
    with_field(
        if or_null(crate::fields::member(j, "updatedAt"@)) is Null {
            with_field(j, "updatedAt"@, or_null(crate::fields::member(j, "createdAt"@)))
        } else {
            j
        },
        "schema"@,
        JsonView::U64(2),
    )
}

/// A file of version `n` in the present version.
pub open spec fn upgraded(j: JsonView, n: u64) -> JsonView {
    if n < 2 {
        with_field(to_version_two(j), "schema"@, JsonView::U64(3))
    } else if n < 3 {
        with_field(j, "schema"@, JsonView::U64(3))
    } else {
        j
    }
}

/// What a file stands for.
pub open spec fn file_read(text: Seq<char>) -> Result<ConversationView, ApiErrorView> {
    match crate::json::parsed(text) {
        Ok(j) => migrated(j),
        Err(e) => Err(internal("not a valid conversation file: "@ + e)),
    }
}

/// What a load gives.
pub open spec fn load_view(r: Result<Conversation, ApiError>) -> Result<
    ConversationView,
    ApiErrorView,
> {
    match r {
        Ok(c) => Ok(c@),
        Err(e) => Err(e@),
    }
}

/// What a parsed file stands for: older versions are upgraded, newer ones are
/// refused.
pub fn migrate_json(j: Json) -> (r: Result<Conversation, ApiError>)
    ensures
        load_view(r) == migrated(j@),
{
    let n: u64 = match read_u64(&j, "schema") {
        Some(n) => n,
        None => {
            return Err(ApiError::internal("conversation file has no schema version"));
        },
    };
    if n == 0 {
        return Err(ApiError::internal("schema version 0 is not a valid conversation"));
    }
    if n > CONVERSATION_SCHEMA_VERSION as u64 {
        let mut message = "schema version ".to_owned();
        message.append(decimal_of(n).as_str());
        message.append(" is unknown (this build speaks 3)");
        return Err(ApiError::internal(message.as_str()));
    }
    let mut value = j;
    if n < 2 {
        let stamped = match value.get("updatedAt") {
            None => false,
            Some(Json::Null) => false,
            Some(_) => true,
        };
        if !stamped {
            let created: Json = match value.get("createdAt") {
                Some(x) => x.copy(),
                None => Json::Null,
            };
            value = value.with("updatedAt", created);
        }
        value = value.with("schema", Json::of_u64(2));
    }
    if n < 3 {
        value = value.with("schema", Json::of_u64(3));
    }
    match Conversation::from_json(&value) {
        Some(c) => Ok(c),
        None => Err(ApiError::internal("not a valid conversation file: unexpected shape")),
    }
}

/// What a file stands for.
pub fn migrate(text: &str) -> (r: Result<Conversation, ApiError>)
    ensures
        load_view(r) == file_read(text@),
{
    match Json::parse(text) {
        Ok(j) => migrate_json(j),
        Err(e) => {
            let mut message = "not a valid conversation file: ".to_owned();
            message.append(e.as_str());
            Err(ApiError::internal(message.as_str()))
        },
    }
}

/// Upgrading a file touches only its version and, from version 1, the time of
/// the last write where it is missing: no other field changes.
pub proof fn upgrade_loses_nothing(j: JsonView, n: u64, key: Seq<char>)
    requires
        key != "schema"@,
        key != "updatedAt"@,
    ensures
        crate::fields::member(upgraded(j, n), key) == crate::fields::member(j, key),
        n >= 2 ==> crate::fields::member(upgraded(j, n), "updatedAt"@) == crate::fields::member(
            j,
            "updatedAt"@,
        ),
{
    reveal_strlit("schema");
    reveal_strlit("updatedAt");
    assert("schema"@.len() == 6);
    assert("updatedAt"@.len() == 9);
    if let JsonView::Object(o) = j {
        let created = or_null(crate::fields::member(j, "createdAt"@));
        let o1 = if or_null(crate::fields::member(j, "updatedAt"@)) is Null {
            crate::json::put(o, "updatedAt"@, created)
        } else {
            o
        };
        let o2 = crate::json::put(o1, "schema"@, JsonView::U64(2));
        crate::json::lemma_get_put(o, "updatedAt"@, created, key);
        crate::json::lemma_get_put(o1, "schema"@, JsonView::U64(2), key);
        crate::json::lemma_get_put(o2, "schema"@, JsonView::U64(3), key);
        crate::json::lemma_get_put(o, "schema"@, JsonView::U64(3), key);
        crate::json::lemma_get_put(o, "schema"@, JsonView::U64(3), "updatedAt"@);
    }
}

/// A file whose version is not known to this library is never read.
pub proof fn unknown_versions_are_refused(j: JsonView)
    requires
        crate::fields::u64_at(j, "schema"@) matches Some(n) ==> n == 0 || n
            > CONVERSATION_SCHEMA_VERSION,
    ensures
        migrated(j) is Err,
{
}

impl Conversation {
    /// The JSON form.
    pub fn to_json(&self) -> (r: Json)
        ensures
            r@ == conversation_json(self@),
    {
        let ghost f = |f: (&str, Json)| crate::json::entry(f.0@, f.1@);
        let mut items: Vec<Json> = Vec::new();
        let mut i: usize = 0;
        while i < self.messages.len()
            invariant
                i <= self.messages.len(),
                items@.len() == i,
                forall|k: int|
                    0 <= k < i ==> (#[trigger] items@[k])@ == stored_json(self.messages@[k]@),
            decreases self.messages.len() - i,
        {
            items.push(self.messages[i].to_json());
            i = i + 1;
        }
        let messages = Json::Array(items);
        proof {
            crate::json::lemma_array_view(messages);
            assert(crate::json::views(items@) =~= self@.messages.map_values(
                |m: ChatMessageView| stored_json(m),
            ));
        }
        let mut fields: Vec<(&str, Json)> = vec![
            ("schema", Json::of_u64(self.schema as u64)),
            ("id", Json::Str(self.id.clone())),
        ];
        let ghost start = fields@.map_values(f);
        if let Some(t) = &self.title {
            fields.push(("title", Json::Str(t.clone())));
        }
        assert(fields@.map_values(f) =~= start + crate::fields::text_field("title"@, self@.title));
        fields.push(("createdAt", Json::Str(self.created_at.clone())));
        fields.push(("updatedAt", Json::Str(self.updated_at.clone())));
        let ghost middle = fields@.map_values(f);
        if let Some(s) = &self.summary {
            fields.push(("summary", Json::Str(s.clone())));
        }
        assert(fields@.map_values(f) =~= middle + crate::fields::text_field(
            "summary"@,
            self@.summary,
        ));
        fields.push(("messages", messages));
        fields.push(("usage", self.usage.to_json()));
        assert(fields@.map_values(f) =~= conversation_fields(self@));
        Json::of_fields(fields)
    }

    /// The text of the file, stamped with the time of the write. A file of the
    /// present version reads back as the stamped conversation.
    pub fn file_text(&self, now: &str) -> (r: String)
        ensures
            ({
                let stamped = ConversationView { updated_at: now@, ..self@ };
                &&& r@ == crate::json::tree_pretty(
                    crate::json::settle(conversation_json(stamped)),
                )
                &&& storable(self@) && self.schema == CONVERSATION_SCHEMA_VERSION ==> file_read(
                    r@,
                ) == Ok::<ConversationView, ApiErrorView>(stamped)
            }),
    {
        let mut stamped = self.clone();
        stamped.updated_at = now.to_owned();
        let j = stamped.to_json();
        let r = j.to_pretty_text();
        proof {
            let view = ConversationView { updated_at: now@, ..self@ };
            assert(stamped@ == view);
            if storable(self@) && self.schema == CONVERSATION_SCHEMA_VERSION {
                lemma_conversation_tidy(view);
                crate::json::lemma_settle(j@);
                conversation_round_trip(view);
                lemma_schema_member(view);
            }
        }
        r
    }
}

/// The schema version in the JSON form of a conversation.
proof fn lemma_schema_member(c: ConversationView)
    ensures
        crate::fields::u64_at(conversation_json(c), "schema"@) == Some(c.schema as u64),
{
    reveal_strlit("schema");
    reveal_strlit("id");
    reveal_strlit("createdAt");
    reveal_strlit("updatedAt");
    reveal_strlit("messages");
    reveal_strlit("usage");
    reveal_strlit("title");
    reveal_strlit("summary");
    assert("schema"@.len() == 6);
    assert("id"@.len() == 2);
    assert("createdAt"@.len() == 9);
    assert("updatedAt"@.len() == 9);
    assert("messages"@.len() == 8);
    assert("usage"@.len() == 5);
    assert("title"@.len() == 5);
    assert("summary"@.len() == 7);
    assert("createdAt"@[0] != "updatedAt"@[0]);
    assert("usage"@[0] != "title"@[0]);
    crate::json::lemma_collect_has(conversation_fields(c), 0);
}

/// Whether an id can be a file name: letters, digits, `-` and `_` only.
pub open spec fn valid_id(id: Seq<char>) -> bool {
    &&& 0 < id.len() <= 128
    &&& forall|i: int|
        0 <= i < id.len() ==> crate::text::is_alnum(#[trigger] id[i]) || id[i] == '-' || id[i]
            == '_'
}

/// The error of an id that is not valid.
pub open spec fn id_error(id: Seq<char>) -> ApiErrorView {
    crate::error::failure(
        ApiErrorKind::Config,
        "conversation id "@ + crate::text::quoted(id)
            + " is invalid (allowed: letters, digits, '-', '_', max 128 chars)"@,
    )
}

/// Checks that an id can be a file name.
pub fn validate_id(id: &str) -> (r: Result<(), ApiError>)
    ensures
        r is Ok <==> valid_id(id@),
        r matches Err(e) ==> e@ == id_error(id@),
{
    let v = chars_of(id);
    let mut valid: bool = v.len() > 0 && v.len() <= 128;
    let mut i: usize = 0;
    while i < v.len() && valid
        invariant
            v@ == id@,
            i <= v.len(),
            valid ==> 0 < v.len() <= 128,
            valid ==> forall|k: int|
                0 <= k < i ==> crate::text::is_alnum(#[trigger] v@[k]) || v@[k] == '-' || v@[k]
                    == '_',
            !valid ==> !valid_id(id@),
        decreases v.len() - i + (if valid { 1int } else { 0int }),
    {
        let c = v[i];
        if !(alnum(c) || c == '-' || c == '_') {
            valid = false;
            assert(!valid_id(id@));
        } else {
            i = i + 1;
        }
    }
    if valid {
        Ok(())
    } else {
        let mut message = "conversation id ".to_owned();
        message.append(quote(id).as_str());
        message.append(" is invalid (allowed: letters, digits, '-', '_', max 128 chars)");
        Err(ApiError::config(message.as_str()))
    }
}

/// A valid id names no other directory: it holds no separator and no dot.
pub proof fn valid_id_is_a_plain_name(id: Seq<char>, i: int)
    requires
        valid_id(id),
        0 <= i < id.len(),
    ensures
        id[i] != '/',
        id[i] != '\\',
        id[i] != '.',
{
    assert(crate::text::is_alnum(id[i]) || id[i] == '-' || id[i] == '_');
}

/// What reading a file brought.
#[derive(Debug)]
pub enum FileRead {
    /// There is no such file.
    Missing,
    /// The text of the file.
    Text(String),
    /// The file could not be read, or is no text.
    Failed(String),
}

/// How removing a file went.
#[derive(Debug)]
pub enum FileRemoval {
    Removed,
    /// There was no such file.
    Missing,
    Failed(String),
}

/// What a load found.
#[derive(Debug)]
pub enum Loaded {
    /// Nothing.
    Absent,
    /// A conversation.
    Found(Conversation),
    /// A file that cannot be used and is to be moved aside.
    Quarantine { from: String, to: String },
}

/// Where conversations are stored: one file per conversation in a directory.
#[derive(Debug)]
pub struct ConversationStore {
    dir: String,
}

impl View for ConversationStore {
    type V = Seq<char>;

    closed spec fn view(&self) -> Seq<char> {
        self.dir@
    }
}

impl Clone for ConversationStore {
    fn clone(&self) -> (r: Self)
        ensures
            r@ == self@,
    {
        ConversationStore { dir: self.dir.clone() }
    }
}

/// The path of a conversation's file.
pub open spec fn conversation_path(dir: Seq<char>, id: Seq<char>) -> Seq<char> {
    crate::paths::joined(dir, id + ".json"@)
}

/// Whether a load moves the file of the conversation `id` aside.
pub open spec fn moves_aside(r: Result<Loaded, ApiError>, dir: Seq<char>, id: Seq<char>) -> bool {
    r matches Ok(Loaded::Quarantine { from, to }) && from@ == conversation_path(dir, id) && to@
        == conversation_path(dir, id) + ".quarantine"@
}

impl ConversationStore {
    /// A store in a directory.
    pub fn new(dir: &str) -> (r: ConversationStore)
        ensures
            r@ == dir@,
    {
        ConversationStore { dir: dir.to_owned() }
    }

    /// The directory.
    pub fn dir(&self) -> (r: &str)
        ensures
            r@ == self@,
    {
        self.dir.as_str()
    }

    /// The path of a conversation's file.
    pub fn path_for(&self, id: &str) -> (r: Result<String, ApiError>)
        ensures
            r is Ok <==> valid_id(id@),
            r matches Ok(p) ==> p@ == conversation_path(self@, id@),
            r matches Err(e) ==> e@ == id_error(id@),
    {
        match validate_id(id) {
            Ok(()) => {
                let mut name = id.to_owned();
                name.append(".json");
                Ok(join_path(self.dir.as_str(), name.as_str()))
            },
            Err(e) => Err(e),
        }
    }

    /// The path and the text that a save writes; `now` is the time of the write.
    pub fn save(&self, conversation: &Conversation, now: &str) -> (r: Result<
        (String, String),
        ApiError,
    >)
        ensures
            r is Ok <==> valid_id(conversation.id@),
            r matches Err(e) ==> e@ == id_error(conversation.id@),
            r matches Ok(w) ==> ({
                let stamped = ConversationView { updated_at: now@, ..conversation@ };
                &&& w.0@ == conversation_path(self@, conversation.id@)
                &&& w.1@ == crate::json::tree_pretty(
                    crate::json::settle(conversation_json(stamped)),
                )
                &&& storable(conversation@) && conversation.schema == CONVERSATION_SCHEMA_VERSION
                    ==> file_read(w.1@) == Ok::<ConversationView, ApiErrorView>(stamped)
            }),
    {
        match self.path_for(conversation.id.as_str()) {
            Ok(path) => Ok((path, conversation.file_text(now))),
            Err(e) => Err(e),
        }
    }

    /// What a load finds, given what reading the file brought. A file that
    /// cannot be read or used is moved aside instead of failing the session.
    pub fn load(&self, id: &str, read: FileRead) -> (r: Result<Loaded, ApiError>)
        ensures
            !valid_id(id@) ==> (r matches Err(e) && e@ == id_error(id@)),
            valid_id(id@) ==> match read {
                FileRead::Missing => r matches Ok(x) && x is Absent,
                FileRead::Failed(_) => moves_aside(r, self@, id@),
                FileRead::Text(text) => match file_read(text@) {
                    Ok(c) => r matches Ok(Loaded::Found(x)) && x@ == c,
                    Err(_) => moves_aside(r, self@, id@),
                },
            },
    {
        let path = match self.path_for(id) {
            Ok(path) => path,
            Err(e) => {
                return Err(e);
            },
        };
        let usable: Option<Conversation> = match read {
            FileRead::Missing => {
                return Ok(Loaded::Absent);
            },
            FileRead::Failed(_) => None,
            FileRead::Text(text) => match migrate(text.as_str()) {
                Ok(c) => Some(c),
                Err(_) => None,
            },
        };
        match usable {
            Some(c) => Ok(Loaded::Found(c)),
            None => {
                let mut to = path.clone();
                to.append(".quarantine");
                Ok(Loaded::Quarantine { from: path, to })
            },
        }
    }

    /// What deleting a conversation gives, given how removing its file went. A
    /// file that is not there counts as deleted.
    pub fn delete(&self, id: &str, removed: FileRemoval) -> (r: Result<(), ApiError>)
        ensures
            r is Ok <==> valid_id(id@) && !(removed is Failed),
            r matches Err(e) ==> e@ == if !valid_id(id@) {
                id_error(id@)
            } else {
                internal(
                    "cannot delete "@ + conversation_path(self@, id@) + ": "@
                        + removed->Failed_0@,
                )
            },
    {
        let path = match self.path_for(id) {
            Ok(path) => path,
            Err(e) => {
                return Err(e);
            },
        };
        match removed {
            FileRemoval::Removed => Ok(()),
            FileRemoval::Missing => Ok(()),
            FileRemoval::Failed(cause) => {
                let mut message = "cannot delete ".to_owned();
                message.append(path.as_str());
                message.append(": ");
                message.append(cause.as_str());
                Err(ApiError::internal(message.as_str()))
            },
        }
    }

    /// The conversations of a listing, the most recently written first.
    pub fn list(&self, conversations: Vec<Conversation>) -> (r: Vec<Conversation>)
        ensures
            crate::fields::views_of(r@) == crate::order::ranked::<Conversation>(
                crate::fields::views_of(conversations@),
            ),
    {
        crate::order::sort(conversations)
    }
}

impl Ranked for Conversation {
    open spec fn before(a: ConversationView, b: ConversationView) -> bool {
        crate::text::lex_lt(b.updated_at, a.updated_at)
    }

    fn comes_before(&self, other: &Self) -> (r: bool) {
        less(other.updated_at.as_str(), self.updated_at.as_str())
    }

    proof fn asymmetric(a: ConversationView, b: ConversationView) {
        if crate::text::lex_lt(a.updated_at, b.updated_at) {
            crate::text::lemma_lex_transitive(a.updated_at, b.updated_at, a.updated_at);
            crate::text::lemma_lex_irreflexive(a.updated_at);
        }
    }

    proof fn transitive(a: ConversationView, b: ConversationView, c: ConversationView) {
        crate::text::lemma_lex_total(a.updated_at, b.updated_at);
        crate::text::lemma_lex_total(b.updated_at, c.updated_at);
        if crate::text::lex_lt(a.updated_at, c.updated_at) {
            crate::text::lemma_lex_irreflexive(a.updated_at);
            if crate::text::lex_lt(b.updated_at, a.updated_at) {
                crate::text::lemma_lex_transitive(b.updated_at, a.updated_at, c.updated_at);
            }
        }
    }
}

/// The id of the conversation in a file, from the file's name.
pub open spec fn id_in_name(name: Seq<char>) -> Option<Seq<char>> {
    if crate::text::ends(name, ".json"@) && valid_id(name.take(name.len() - 5)) {
        Some(name.take(name.len() - 5))
    } else {
        None
    }
}

/// The id of the conversation in a file, from the file's name; none for files
/// that are not conversations.
pub fn id_of_file(name: &str) -> (r: Option<String>)
    ensures
        crate::text::opt_text(r) == id_in_name(name@),
{
    proof {
        reveal_strlit(".json");
    }
    if !ends_with(name, ".json") {
        return None;
    }
    let v = chars_of(name);
    let id = string_of(&v, 0, v.len() - 5);
    assert(id@ =~= name@.take(name@.len() - 5));
    match validate_id(id.as_str()) {
        Ok(()) => Some(id),
        Err(_) => None,
    }
}

/// Every valid id is found again in the name of its file.
pub proof fn file_name_round_trip(id: Seq<char>)
    requires
        valid_id(id),
    ensures
        id_in_name(id + ".json"@) == Some(id),
{
    reveal_strlit(".json");
    let name = id + ".json"@;
    assert(name.subrange(name.len() - 5, name.len() as int) =~= ".json"@);
    assert(name.take(name.len() - 5) =~= id);
}

/// The file of a conversation says the conversation: its id, its title and its
/// summary where it has them, its times, every message in its order, and its
/// usage, each under its own name.
pub proof fn file_says_the_conversation(c: ConversationView)
    ensures
        ({
            let j = conversation_json(c);
            &&& crate::fields::u64_at(j, "schema"@) == Some(c.schema as u64)
            &&& crate::fields::str_at(j, "id"@) == Some(c.id)
            &&& crate::fields::str_at(j, "title"@) == c.title
            &&& crate::fields::str_at(j, "createdAt"@) == Some(c.created_at)
            &&& crate::fields::str_at(j, "updatedAt"@) == Some(c.updated_at)
            &&& crate::fields::str_at(j, "summary"@) == c.summary
            &&& crate::fields::member(j, "messages"@) matches Some(JsonView::Array(a)) && a.len()
                == c.messages.len() && forall|i: int|
                0 <= i < a.len() ==> #[trigger] a[i] == stored_json(c.messages[i])
            &&& crate::fields::member(j, "usage"@) == Some(crate::events_json::usage_json(c.usage))
        }),
{
    reveal_strlit("schema");
    reveal_strlit("id");
    reveal_strlit("createdAt");
    reveal_strlit("updatedAt");
    reveal_strlit("messages");
    reveal_strlit("usage");
    reveal_strlit("title");
    reveal_strlit("summary");
    assert("schema"@.len() == 6);
    assert("id"@.len() == 2);
    assert("createdAt"@.len() == 9);
    assert("updatedAt"@.len() == 9);
    assert("messages"@.len() == 8);
    assert("usage"@.len() == 5);
    assert("title"@.len() == 5);
    assert("summary"@.len() == 7);
    assert("createdAt"@[0] != "updatedAt"@[0]);
    assert("usage"@[0] != "title"@[0]);
    let all = conversation_fields(c);
    let a = crate::fields::text_field("title"@, c.title).len() as int;
    crate::json::lemma_collect_has(all, 0);
    crate::json::lemma_collect_has(all, 1);
    let b = crate::fields::text_field("summary"@, c.summary).len() as int;
    crate::json::lemma_collect_has(all, 2 + a);
    crate::json::lemma_collect_has(all, 3 + a);
    crate::json::lemma_collect_has(all, 4 + a + b);
    crate::json::lemma_collect_has(all, 5 + a + b);
    if c.title is Some {
        crate::json::lemma_collect_has(all, 2);
    } else {
        crate::json::lemma_collect_lacks(all, "title"@);
    }
    if c.summary is Some {
        crate::json::lemma_collect_has(all, 4 + a);
    } else {
        crate::json::lemma_collect_lacks(all, "summary"@);
    }
}

/// A stored message says what was said: who said it, the text, the thoughts, the
/// calls and the files that it came with, each under its own name.
pub proof fn stored_message_says_what_was_said(m: ChatMessageView)
    ensures
        ({
            let j = stored_json(m);
            &&& crate::fields::str_at(j, "role"@) == Some(crate::llm::types::role_name(m.role))
            &&& crate::fields::str_at(j, "content"@) == Some(m.content)
            &&& crate::fields::str_at(j, "reasoning"@) == m.reasoning
            &&& crate::fields::str_at(j, "toolCallId"@) == m.tool_call_id
            &&& match m.tool_calls {
                Some(calls) => crate::fields::member(j, "toolCalls"@) matches Some(
                    JsonView::Array(a),
                ) && a.len() == calls.len() && forall|i: int|
                    0 <= i < a.len() ==> #[trigger] a[i] == stored_call_json(calls[i]),
                None => crate::fields::member(j, "toolCalls"@) is None,
            }
            &&& if m.artifacts.len() > 0 {
                crate::fields::member(j, "artifacts"@) matches Some(JsonView::Array(a)) && a.len()
                    == m.artifacts.len() && forall|i: int|
                    0 <= i < a.len() ==> #[trigger] a[i] == artifact_json(m.artifacts[i])
            } else {
                crate::fields::member(j, "artifacts"@) is None
            }
        }),
{
    reveal_strlit("role");
    reveal_strlit("content");
    reveal_strlit("toolCallId");
    reveal_strlit("toolCalls");
    reveal_strlit("reasoning");
    reveal_strlit("artifacts");
    assert("role"@.len() == 4);
    assert("content"@.len() == 7);
    assert("toolCallId"@.len() == 10);
    assert("toolCalls"@.len() == 9);
    assert("reasoning"@.len() == 9);
    assert("artifacts"@.len() == 9);
    assert("toolCalls"@[0] != "reasoning"@[0]);
    assert("toolCalls"@[0] != "artifacts"@[0]);
    assert("reasoning"@[0] != "artifacts"@[0]);
    let all = stored_fields(m);
    let a = crate::fields::text_field("toolCallId"@, m.tool_call_id).len() as int;
    let b = calls_field(m.tool_calls).len() as int;
    let c = crate::fields::text_field("reasoning"@, m.reasoning).len() as int;
    crate::json::lemma_collect_has(all, 0);
    crate::json::lemma_collect_has(all, 1);
    if m.tool_call_id is Some {
        crate::json::lemma_collect_has(all, 2);
    } else {
        crate::json::lemma_collect_lacks(all, "toolCallId"@);
    }
    if m.tool_calls is Some {
        crate::json::lemma_collect_has(all, 2 + a);
    } else {
        crate::json::lemma_collect_lacks(all, "toolCalls"@);
    }
    if m.reasoning is Some {
        crate::json::lemma_collect_has(all, 2 + a + b);
    } else {
        crate::json::lemma_collect_lacks(all, "reasoning"@);
    }
    if m.artifacts.len() > 0 {
        crate::json::lemma_collect_has(all, 2 + a + b + c);
    } else {
        crate::json::lemma_collect_lacks(all, "artifacts"@);
    }
}

} // verus!

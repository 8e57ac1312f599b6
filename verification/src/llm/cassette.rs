//! Cassettes: recorded requests with the events they brought, and their text
//! form.

use vstd::prelude::*;

use crate::conversations::{read_opt_calls, stored_call_to_json};
use crate::error::{ApiError, ApiErrorKind, ApiErrorView};
use crate::events::{Artifact, ArtifactView, CoreEvent, CoreEventView};
use crate::fields::{
    read_all, read_list, read_opt_str, read_opt_u64, read_str, read_strs_or_empty, read_u64,
    strs_to_json, FromJson, Record,
};
use crate::json::{Json, JsonView};
use crate::llm::types::{
    ChatMessage, ChatMessageView, ChatRequest, ChatRequestView, ModelInfo, ModelInfoView, Role,
    ToolCallView,
};
use crate::text::decimal_of;

verus! {

/// The version of the form.
pub const CASSETTE_VERSION: u32 = 1;

/// How deep the arguments, tools and inputs of a recording may be nested to be
/// written exactly.
pub const RECORDED_NESTING: u64 = 100;

/// A recorded request and the events it brought.
#[derive(Debug, PartialEq, Eq)]
pub struct Interaction {
    pub request: ChatRequest,
    pub events: Vec<CoreEvent>,
}

/// The content of an [`Interaction`].
#[verifier::ext_equal]
pub struct InteractionView {
    pub request: ChatRequestView,
    pub events: Seq<CoreEventView>,
}

impl View for Interaction {
    type V = InteractionView;

    open spec fn view(&self) -> InteractionView {
        InteractionView {
            request: self.request@,
            events: crate::events::event_views(self.events@),
        }
    }
}

/// A recording.
#[derive(Debug, PartialEq, Eq)]
pub struct Cassette {
    pub cassette_version: u32,
    /// The time of the recording.
    pub recorded_at_unix: Option<u64>,
    /// The provider that was recorded.
    pub base_url: Option<String>,
    pub models: Vec<ModelInfo>,
    pub interactions: Vec<Interaction>,
}

/// The content of a [`Cassette`].
#[verifier::ext_equal]
pub struct CassetteView {
    pub cassette_version: u32,
    pub recorded_at_unix: Option<u64>,
    pub base_url: Option<Seq<char>>,
    pub models: Seq<ModelInfoView>,
    pub interactions: Seq<InteractionView>,
}

impl View for Cassette {
    type V = CassetteView;

    open spec fn view(&self) -> CassetteView {
        CassetteView {
            cassette_version: self.cassette_version,
            recorded_at_unix: self.recorded_at_unix,
            base_url: crate::text::opt_text(self.base_url),
            models: crate::llm::types::model_views(self.models@),
            interactions: crate::fields::views_of(self.interactions@),
        }
    }
}

/// The fields of an artifact.
pub open spec fn file_fields(a: ArtifactView) -> Seq<crate::json::FieldView> {
    seq![crate::json::entry("path"@, JsonView::Str(a.path))] + crate::fields::text_field(
        "mime_hint"@,
        a.mime_hint,
    )
}

/// The JSON form of an artifact.
pub open spec fn file_json(a: ArtifactView) -> JsonView {
    crate::json::object(file_fields(a))
}

impl Record for Artifact {
    open spec fn names() -> Seq<Seq<char>> {
        seq!["path"@, "mime_hint"@]
    }

    open spec fn of_object(j: JsonView) -> Option<ArtifactView> {
        match (
            crate::fields::str_at(j, "path"@),
            crate::fields::opt_str_at(j, "mime_hint"@),
        ) {
            (Some(path), Some(mime_hint)) => Some(
                ArtifactView { path: path, mime_hint: mime_hint },
            ),
            _ => None,
        }
    }

    fn field_names() -> (r: Vec<&'static str>) {
        let r: Vec<&'static str> = vec!["path", "mime_hint"];
        assert(crate::fields::names_of(r@) =~= Self::names());
        r
    }

    fn from_object(j: &Json) -> (r: Option<Artifact>) {
        match (read_str(j, "path"), read_opt_str(j, "mime_hint")) {
            (Some(path), Some(mime_hint)) => Some(Artifact { path, mime_hint }),
            _ => None,
        }
    }
}

/// The JSON form of an artifact.
fn file_to_json(a: &Artifact) -> (r: Json)
    ensures
        r@ == file_json(a@),
{
    let ghost f = |f: (&str, Json)| crate::json::entry(f.0@, f.1@);
    let mut fields: Vec<(&str, Json)> = vec![("path", Json::Str(a.path.clone()))];
    if let Some(m) = &a.mime_hint {
        fields.push(("mime_hint", Json::Str(m.clone())));
    }
    assert(fields@.map_values(f) =~= file_fields(a@));
    Json::of_fields(fields)
}

/// The field of a list, where it holds anything.
pub open spec fn list_field(key: Seq<char>, items: Seq<JsonView>) -> Seq<crate::json::FieldView> {
    if items.len() == 0 {
        seq![]
    } else {
        seq![crate::json::entry(key, JsonView::Array(items))]
    }
}

/// The field of tool calls that are there.
pub open spec fn recorded_calls(o: Option<Seq<ToolCallView>>) -> Seq<crate::json::FieldView> {
    match o {
        Some(calls) => seq![
            crate::json::entry(
                "tool_calls"@,
                JsonView::Array(
                    calls.map_values(
                        |c: ToolCallView| crate::conversations::stored_call_json(c),
                    ),
                ),
            ),
        ],
        None => seq![],
    }
}

/// The JSON forms of artifacts.
pub open spec fn files_json(a: Seq<ArtifactView>) -> Seq<JsonView> {
    a.map_values(|x: ArtifactView| file_json(x))
}

/// The fields of a recorded message.
pub open spec fn recorded_fields(m: ChatMessageView) -> Seq<crate::json::FieldView> {
    seq![
        crate::json::entry("role"@, JsonView::Str(crate::llm::types::role_name(m.role))),
        crate::json::entry("content"@, JsonView::Str(m.content)),
    ] + crate::fields::text_field("reasoning"@, m.reasoning) + recorded_calls(m.tool_calls)
        + crate::fields::text_field("tool_call_id"@, m.tool_call_id) + list_field(
        "artifacts"@,
        files_json(m.artifacts),
    )
}

/// The JSON form of a recorded message.
pub open spec fn recorded_json(m: ChatMessageView) -> JsonView {
    crate::json::object(recorded_fields(m))
}

impl Record for ChatMessage {
    open spec fn names() -> Seq<Seq<char>> {
        seq!["role"@, "content"@, "reasoning"@, "tool_calls"@, "tool_call_id"@, "artifacts"@]
    }

    open spec fn of_object(j: JsonView) -> Option<ChatMessageView> {
        match (
            crate::conversations::role_at(j, "role"@),
            crate::fields::str_at(j, "content"@),
            crate::fields::opt_str_at(j, "reasoning"@),
            crate::conversations::opt_calls_at(j, "tool_calls"@),
            crate::fields::opt_str_at(j, "tool_call_id"@),
            crate::fields::list_at::<Artifact>(j, "artifacts"@),
        ) {
            (Some(role), Some(content), Some(reasoning), Some(calls), Some(id), Some(artifacts)) =>
            Some(
                ChatMessageView {
                    role: role,
                    content: content,
                    reasoning: reasoning,
                    tool_calls: calls,
                    tool_call_id: id,
                    artifacts: artifacts,
                },
            ),
            _ => None,
        }
    }

    fn field_names() -> (r: Vec<&'static str>) {
        let r: Vec<&'static str> = vec![
            "role",
            "content",
            "reasoning",
            "tool_calls",
            "tool_call_id",
            "artifacts",
        ];
        assert(crate::fields::names_of(r@) =~= Self::names());
        r
    }

    fn from_object(j: &Json) -> (r: Option<ChatMessage>) {
        let role: Option<Role> = match read_str(j, "role") {
            Some(s) => Role::named(s.as_str()),
            None => None,
        };
        match (
            role,
            read_str(j, "content"),
            read_opt_str(j, "reasoning"),
            read_opt_calls(j, "tool_calls"),
            read_opt_str(j, "tool_call_id"),
            read_list::<Artifact>(j, "artifacts"),
        ) {
            (Some(role), Some(content), Some(reasoning), Some(calls), Some(id), Some(artifacts)) => {
                assert(crate::fields::views_of(artifacts@) =~= crate::events::artifact_views(
                    artifacts@,
                ));
                Some(
                    ChatMessage {
                        role,
                        content,
                        reasoning,
                        tool_calls: calls,
                        tool_call_id: id,
                        artifacts,
                    },
                )
            },
            _ => None,
        }
    }
}

/// The JSON form of a recorded message.
fn message_to_json(m: &ChatMessage) -> (r: Json)
    ensures
        r@ == recorded_json(m@),
{
    let ghost f = |f: (&str, Json)| crate::json::entry(f.0@, f.1@);
    let mut fields: Vec<(&str, Json)> = vec![
        ("role", Json::of_str(m.role.wire_name())),
        ("content", Json::Str(m.content.clone())),
    ];
    let ghost one = seq![
        crate::json::entry("role"@, JsonView::Str(crate::llm::types::role_name(m.role))),
        crate::json::entry("content"@, JsonView::Str(m.content@)),
    ];
    assert(fields@.map_values(f) =~= one);
    if let Some(reasoning) = &m.reasoning {
        fields.push(("reasoning", Json::Str(reasoning.clone())));
    }
    let ghost two = crate::fields::text_field("reasoning"@, m@.reasoning);
    assert(fields@.map_values(f) =~= one + two);
    if let Some(calls) = &m.tool_calls {
        let mut items: Vec<Json> = Vec::new();
        let mut i: usize = 0;
        while i < calls.len()
            invariant
                i <= calls.len(),
                items@.len() == i,
                forall|k: int|
                    0 <= k < i ==> (#[trigger] items@[k])@
                        == crate::conversations::stored_call_json(calls@[k]@),
            decreases calls.len() - i,
        {
            items.push(stored_call_to_json(&calls[i]));
            i = i + 1;
        }
        let array = Json::Array(items);
        proof {
            crate::json::lemma_array_view(array);
            assert(crate::json::views(items@) =~= m@.tool_calls->0.map_values(
                |c: ToolCallView| crate::conversations::stored_call_json(c),
            ));
        }
        fields.push(("tool_calls", array));
    }
    let ghost three = recorded_calls(m@.tool_calls);
    assert(fields@.map_values(f) =~= one + two + three);
    if let Some(id) = &m.tool_call_id {
        fields.push(("tool_call_id", Json::Str(id.clone())));
    }
    let ghost four = crate::fields::text_field("tool_call_id"@, m@.tool_call_id);
    assert(fields@.map_values(f) =~= one + two + three + four);
    if m.artifacts.len() > 0 {
        let mut items: Vec<Json> = Vec::new();
        let mut i: usize = 0;
        while i < m.artifacts.len()
            invariant
                i <= m.artifacts.len(),
                items@.len() == i,
                forall|k: int|
                    0 <= k < i ==> (#[trigger] items@[k])@ == file_json(m.artifacts@[k]@),
            decreases m.artifacts.len() - i,
        {
            items.push(file_to_json(&m.artifacts[i]));
            i = i + 1;
        }
        let array = Json::Array(items);
        proof {
            crate::json::lemma_array_view(array);
            assert(crate::json::views(items@) =~= files_json(m@.artifacts));
        }
        fields.push(("artifacts", array));
    }
    assert(fields@.map_values(f) =~= recorded_fields(m@));
    Json::of_fields(fields)
}

/// The JSON forms of messages.
pub open spec fn messages_json(m: Seq<ChatMessageView>) -> Seq<JsonView> {
    m.map_values(|x: ChatMessageView| recorded_json(x))
}

/// The field of a number that may be missing.
pub open spec fn number_field(key: Seq<char>, n: Option<u64>) -> Seq<crate::json::FieldView> {
    match n {
        Some(n) => seq![crate::json::entry(key, JsonView::U64(n))],
        None => seq![],
    }
}

/// A cap as a number.
pub open spec fn wide(o: Option<u32>) -> Option<u64> {
    match o {
        Some(n) => Some(n as u64),
        None => None,
    }
}

/// The fields of a recorded request.
pub open spec fn request_fields(r: ChatRequestView) -> Seq<crate::json::FieldView> {
    seq![
        crate::json::entry("model"@, JsonView::Str(r.model)),
        crate::json::entry("messages"@, JsonView::Array(messages_json(r.messages))),
    ] + crate::fields::text_field("reasoning_effort"@, r.reasoning_effort) + list_field(
        "tools"@,
        r.tools,
    ) + number_field("max_tokens"@, wide(r.max_tokens))
}

/// The JSON form of a recorded request.
pub open spec fn recorded_request(r: ChatRequestView) -> JsonView {
    crate::json::object(request_fields(r))
}

/// A list that must be there.
pub open spec fn whole_list_at<T: FromJson>(j: JsonView, key: Seq<char>) -> Option<Seq<T::V>> {
    match crate::fields::member(j, key) {
        Some(JsonView::Array(a)) => crate::fields::all_of::<T>(a),
        _ => None,
    }
}

/// Reads a list that must be there.
fn read_whole_list<T: FromJson>(j: &Json, key: &str) -> (r: Option<Vec<T>>)
    ensures
        crate::fields::opt_views(r) == whole_list_at::<T>(j@, key@),
{
    match j.get(key) {
        Some(x) => match x {
            Json::Array(a) => {
                proof {
                    crate::json::lemma_array_view(*x);
                }
                read_all::<T>(a)
            },
            _ => None,
        },
        None => None,
    }
}

/// The values of a list that may be missing.
pub open spec fn values_at(j: JsonView, key: Seq<char>) -> Option<Seq<JsonView>> {
    match crate::fields::member(j, key) {
        None => Some(seq![]),
        Some(JsonView::Array(a)) => Some(a),
        _ => None,
    }
}

/// The contents of values that were read, or not.
pub open spec fn opt_values(o: Option<Vec<Json>>) -> Option<Seq<JsonView>> {
    match o {
        Some(v) => Some(crate::json::views(v@)),
        None => None,
    }
}

/// A copy of values.
fn copy_values(v: &Vec<Json>) -> (r: Vec<Json>)
    ensures
        crate::json::views(r@) == crate::json::views(v@),
{
    let mut out: Vec<Json> = Vec::new();
    let mut i: usize = 0;
    while i < v.len()
        invariant
            i <= v.len(),
            out@.len() == i,
            forall|k: int| 0 <= k < i ==> (#[trigger] out@[k])@ == v@[k]@,
        decreases v.len() - i,
    {
        out.push(v[i].copy());
        i = i + 1;
    }
    assert(crate::json::views(out@) =~= crate::json::views(v@));
    out
}

/// Reads the values of a list that may be missing.
fn read_values(j: &Json, key: &str) -> (r: Option<Vec<Json>>)
    ensures
        opt_values(r) == values_at(j@, key@),
{
    match j.get(key) {
        None => {
            let none: Vec<Json> = Vec::new();
            assert(crate::json::views(none@) =~= seq![]);
            Some(none)
        },
        Some(x) => match x {
            Json::Array(a) => {
                proof {
                    crate::json::lemma_array_view(*x);
                }
                Some(copy_values(a))
            },
            _ => None,
        },
    }
}

/// A cap in a field that may be missing.
pub open spec fn opt_u32_at(j: JsonView, key: Seq<char>) -> Option<Option<u32>> {
    match crate::fields::opt_u64_at(j, key) {
        Some(Some(n)) => if n <= u32::MAX {
            Some(Some(n as u32))
        } else {
            None
        },
        Some(None) => Some(None),
        None => None,
    }
}

/// Reads a cap in a field that may be missing.
fn read_opt_u32(j: &Json, key: &str) -> (r: Option<Option<u32>>)
    ensures
        r == opt_u32_at(j@, key@),
{
    match read_opt_u64(j, key) {
        Some(Some(n)) => if n <= u32::MAX as u64 {
            Some(Some(n as u32))
        } else {
            None
        },
        Some(None) => Some(None),
        None => None,
    }
}

impl Record for ChatRequest {
    open spec fn names() -> Seq<Seq<char>> {
        seq!["model"@, "messages"@, "reasoning_effort"@, "tools"@, "max_tokens"@]
    }

    open spec fn of_object(j: JsonView) -> Option<ChatRequestView> {
        match (
            crate::fields::str_at(j, "model"@),
            whole_list_at::<ChatMessage>(j, "messages"@),
            crate::fields::opt_str_at(j, "reasoning_effort"@),
            values_at(j, "tools"@),
            opt_u32_at(j, "max_tokens"@),
        ) {
            (Some(model), Some(messages), Some(effort), Some(tools), Some(max_tokens)) => Some(
                ChatRequestView {
                    model: model,
                    messages: messages,
                    reasoning_effort: effort,
                    tools: tools,
                    max_tokens: max_tokens,
                },
            ),
            _ => None,
        }
    }

    fn field_names() -> (r: Vec<&'static str>) {
        let r: Vec<&'static str> = vec![
            "model",
            "messages",
            "reasoning_effort",
            "tools",
            "max_tokens",
        ];
        assert(crate::fields::names_of(r@) =~= Self::names());
        r
    }

    fn from_object(j: &Json) -> (r: Option<ChatRequest>) {
        match (
            read_str(j, "model"),
            read_whole_list::<ChatMessage>(j, "messages"),
            read_opt_str(j, "reasoning_effort"),
            read_values(j, "tools"),
            read_opt_u32(j, "max_tokens"),
        ) {
            (Some(model), Some(messages), Some(effort), Some(tools), Some(max_tokens)) => {
                assert(crate::fields::views_of(messages@) =~= crate::llm::types::message_views(
                    messages@,
                ));
                Some(
                    ChatRequest {
                        model,
                        messages,
                        reasoning_effort: effort,
                        tools,
                        max_tokens,
                    },
                )
            },
            _ => None,
        }
    }
}

/// The JSON form of a recorded request.
fn request_to_json(r: &ChatRequest) -> (j: Json)
    ensures
        j@ == recorded_request(r@),
{
    let ghost f = |f: (&str, Json)| crate::json::entry(f.0@, f.1@);
    let mut items: Vec<Json> = Vec::new();
    let mut i: usize = 0;
    while i < r.messages.len()
        invariant
            i <= r.messages.len(),
            items@.len() == i,
            forall|k: int|
                0 <= k < i ==> (#[trigger] items@[k])@ == recorded_json(r.messages@[k]@),
        decreases r.messages.len() - i,
    {
        items.push(message_to_json(&r.messages[i]));
        i = i + 1;
    }
    let array = Json::Array(items);
    proof {
        crate::json::lemma_array_view(array);
        assert(crate::json::views(items@) =~= messages_json(r@.messages));
    }
    let mut fields: Vec<(&str, Json)> = vec![
        ("model", Json::Str(r.model.clone())),
        ("messages", array),
    ];
    let ghost one = seq![
        crate::json::entry("model"@, JsonView::Str(r.model@)),
        crate::json::entry("messages"@, JsonView::Array(messages_json(r@.messages))),
    ];
    assert(fields@.map_values(f) =~= one);
    if let Some(e) = &r.reasoning_effort {
        fields.push(("reasoning_effort", Json::Str(e.clone())));
    }
    let ghost two = crate::fields::text_field("reasoning_effort"@, r@.reasoning_effort);
    assert(fields@.map_values(f) =~= one + two);
    if r.tools.len() > 0 {
        let tools = Json::Array(copy_values(&r.tools));
        proof {
            crate::json::lemma_array_view(tools);
        }
        fields.push(("tools", tools));
    }
    let ghost three = list_field("tools"@, r@.tools);
    assert(fields@.map_values(f) =~= one + two + three);
    if let Some(n) = r.max_tokens {
        fields.push(("max_tokens", Json::of_u64(n as u64)));
    }
    assert(fields@.map_values(f) =~= request_fields(r@));
    Json::of_fields(fields)
}

/// The fields of a model.
pub open spec fn model_fields(m: ModelInfoView) -> Seq<crate::json::FieldView> {
    seq![crate::json::entry("id"@, JsonView::Str(m.id))] + list_field(
        "reasoning_effort_levels"@,
        crate::fields::strs_json(m.reasoning_effort_levels),
    ) + crate::fields::text_field("default_reasoning_effort"@, m.default_reasoning_effort)
}

/// The JSON form of a model.
pub open spec fn model_json(m: ModelInfoView) -> JsonView {
    crate::json::object(model_fields(m))
}

impl Record for ModelInfo {
    open spec fn names() -> Seq<Seq<char>> {
        seq!["id"@, "reasoning_effort_levels"@, "default_reasoning_effort"@]
    }

    open spec fn of_object(j: JsonView) -> Option<ModelInfoView> {
        match (
            crate::fields::str_at(j, "id"@),
            crate::fields::strs_or_empty_at(j, "reasoning_effort_levels"@),
            crate::fields::opt_str_at(j, "default_reasoning_effort"@),
        ) {
            (Some(id), Some(levels), Some(default)) => Some(
                ModelInfoView {
                    id: id,
                    reasoning_effort_levels: levels,
                    default_reasoning_effort: default,
                },
            ),
            _ => None,
        }
    }

    fn field_names() -> (r: Vec<&'static str>) {
        let r: Vec<&'static str> = vec![
            "id",
            "reasoning_effort_levels",
            "default_reasoning_effort",
        ];
        assert(crate::fields::names_of(r@) =~= Self::names());
        r
    }

    fn from_object(j: &Json) -> (r: Option<ModelInfo>) {
        match (
            read_str(j, "id"),
            read_strs_or_empty(j, "reasoning_effort_levels"),
            read_opt_str(j, "default_reasoning_effort"),
        ) {
            (Some(id), Some(levels), Some(default)) => Some(
                ModelInfo {
                    id,
                    reasoning_effort_levels: levels,
                    default_reasoning_effort: default,
                },
            ),
            _ => None,
        }
    }
}

/// The JSON form of a model.
fn model_to_json(m: &ModelInfo) -> (r: Json)
    ensures
        r@ == model_json(m@),
{
    let ghost f = |f: (&str, Json)| crate::json::entry(f.0@, f.1@);
    let mut fields: Vec<(&str, Json)> = vec![("id", Json::Str(m.id.clone()))];
    let ghost one = seq![crate::json::entry("id"@, JsonView::Str(m.id@))];
    assert(fields@.map_values(f) =~= one);
    if m.reasoning_effort_levels.len() > 0 {
        fields.push(("reasoning_effort_levels", strs_to_json(&m.reasoning_effort_levels)));
    }
    let ghost two = list_field(
        "reasoning_effort_levels"@,
        crate::fields::strs_json(m@.reasoning_effort_levels),
    );
    assert(fields@.map_values(f) =~= one + two);
    if let Some(d) = &m.default_reasoning_effort {
        fields.push(("default_reasoning_effort", Json::Str(d.clone())));
    }
    assert(fields@.map_values(f) =~= model_fields(m@));
    Json::of_fields(fields)
}

impl FromJson for CoreEvent {
    open spec fn of(j: JsonView) -> Option<CoreEventView> {
        crate::events_json::event_of(j)
    }

    fn from_json(j: &Json) -> (r: Option<CoreEvent>) {
        CoreEvent::from_json(j)
    }
}

/// The JSON forms of events.
pub open spec fn events_json(e: Seq<CoreEventView>) -> Seq<JsonView> {
    e.map_values(|x: CoreEventView| crate::events_json::event_json(x))
}

/// The fields of an interaction.
pub open spec fn interaction_fields(i: InteractionView) -> Seq<crate::json::FieldView> {
    seq![
        crate::json::entry("request"@, recorded_request(i.request)),
        crate::json::entry("events"@, JsonView::Array(events_json(i.events))),
    ]
}

/// The JSON form of an interaction.
pub open spec fn interaction_json(i: InteractionView) -> JsonView {
    crate::json::object(interaction_fields(i))
}

/// The request in a field.
pub open spec fn request_at(j: JsonView) -> Option<ChatRequestView> {
    match crate::fields::member(j, "request"@) {
        Some(x) => <ChatRequest as FromJson>::of(x),
        None => None,
    }
}

impl Record for Interaction {
    open spec fn names() -> Seq<Seq<char>> {
        seq!["request"@, "events"@]
    }

    open spec fn of_object(j: JsonView) -> Option<InteractionView> {
        match (request_at(j), whole_list_at::<CoreEvent>(j, "events"@)) {
            (Some(request), Some(events)) => Some(
                InteractionView { request: request, events: events },
            ),
            _ => None,
        }
    }

    fn field_names() -> (r: Vec<&'static str>) {
        let r: Vec<&'static str> = vec!["request", "events"];
        assert(crate::fields::names_of(r@) =~= Self::names());
        r
    }

    fn from_object(j: &Json) -> (r: Option<Interaction>) {
        let request: Option<ChatRequest> = match j.get("request") {
            Some(x) => <ChatRequest as FromJson>::from_json(x),
            None => None,
        };
        match (request, read_whole_list::<CoreEvent>(j, "events")) {
            (Some(request), Some(events)) => {
                assert(crate::fields::views_of(events@) =~= crate::events::event_views(events@));
                Some(Interaction { request, events })
            },
            _ => None,
        }
    }
}

/// The JSON form of an interaction.
fn interaction_to_json(i: &Interaction) -> (r: Json)
    ensures
        r@ == interaction_json(i@),
{
    let ghost f = |f: (&str, Json)| crate::json::entry(f.0@, f.1@);
    let mut items: Vec<Json> = Vec::new();
    let mut k: usize = 0;
    while k < i.events.len()
        invariant
            k <= i.events.len(),
            items@.len() == k,
            forall|n: int|
                0 <= n < k ==> (#[trigger] items@[n])@ == crate::events_json::event_json(
                    i.events@[n]@,
                ),
        decreases i.events.len() - k,
    {
        items.push(i.events[k].to_json());
        k = k + 1;
    }
    let array = Json::Array(items);
    proof {
        crate::json::lemma_array_view(array);
        assert(crate::json::views(items@) =~= events_json(i@.events));
    }
    let fields: Vec<(&str, Json)> = vec![
        ("request", request_to_json(&i.request)),
        ("events", array),
    ];
    assert(fields@.map_values(f) =~= interaction_fields(i@));
    Json::of_fields(fields)
}

/// The JSON forms of models.
pub open spec fn models_json(m: Seq<ModelInfoView>) -> Seq<JsonView> {
    m.map_values(|x: ModelInfoView| model_json(x))
}

/// The JSON forms of interactions.
pub open spec fn interactions_json(i: Seq<InteractionView>) -> Seq<JsonView> {
    i.map_values(|x: InteractionView| interaction_json(x))
}

/// The fields of a cassette.
pub open spec fn cassette_fields(c: CassetteView) -> Seq<crate::json::FieldView> {
    seq![
        crate::json::entry("cassette_version"@, JsonView::U64(c.cassette_version as u64)),
    ] + number_field("recorded_at_unix"@, c.recorded_at_unix) + crate::fields::text_field(
        "base_url"@,
        c.base_url,
    ) + seq![
        crate::json::entry("models"@, JsonView::Array(models_json(c.models))),
        crate::json::entry("interactions"@, JsonView::Array(interactions_json(c.interactions))),
    ]
}

/// The JSON form of a cassette.
pub open spec fn cassette_json(c: CassetteView) -> JsonView {
    crate::json::object(cassette_fields(c))
}

/// The version in a field.
pub open spec fn version_at(j: JsonView) -> Option<u32> {
    match crate::fields::u64_at(j, "cassette_version"@) {
        Some(n) => if n <= u32::MAX {
            Some(n as u32)
        } else {
            None
        },
        None => None,
    }
}

impl Record for Cassette {
    open spec fn names() -> Seq<Seq<char>> {
        seq!["cassette_version"@, "recorded_at_unix"@, "base_url"@, "models"@, "interactions"@]
    }

    open spec fn of_object(j: JsonView) -> Option<CassetteView> {
        match (
            version_at(j),
            crate::fields::opt_u64_at(j, "recorded_at_unix"@),
            crate::fields::opt_str_at(j, "base_url"@),
            crate::fields::list_at::<ModelInfo>(j, "models"@),
            crate::fields::list_at::<Interaction>(j, "interactions"@),
        ) {
            (Some(version), Some(recorded), Some(base_url), Some(models), Some(interactions)) =>
            Some(
                CassetteView {
                    cassette_version: version,
                    recorded_at_unix: recorded,
                    base_url: base_url,
                    models: models,
                    interactions: interactions,
                },
            ),
            _ => None,
        }
    }

    fn field_names() -> (r: Vec<&'static str>) {
        let r: Vec<&'static str> = vec![
            "cassette_version",
            "recorded_at_unix",
            "base_url",
            "models",
            "interactions",
        ];
        assert(crate::fields::names_of(r@) =~= Self::names());
        r
    }

    fn from_object(j: &Json) -> (r: Option<Cassette>) {
        let version: Option<u32> = match read_u64(j, "cassette_version") {
            Some(n) => if n <= u32::MAX as u64 {
                Some(n as u32)
            } else {
                None
            },
            None => None,
        };
        match (
            version,
            read_opt_u64(j, "recorded_at_unix"),
            read_opt_str(j, "base_url"),
            read_list::<ModelInfo>(j, "models"),
            read_list::<Interaction>(j, "interactions"),
        ) {
            (Some(version), Some(recorded), Some(base_url), Some(models), Some(interactions)) => {
                assert(crate::fields::views_of(models@) =~= crate::llm::types::model_views(
                    models@,
                ));
                Some(
                    Cassette {
                        cassette_version: version,
                        recorded_at_unix: recorded,
                        base_url,
                        models,
                        interactions,
                    },
                )
            },
            _ => None,
        }
    }
}

/// What a text of a cassette stands for.
pub open spec fn cassette_read(path: Seq<char>, text: Seq<char>) -> Result<
    CassetteView,
    ApiErrorView,
> {
    let bad = "cassette "@ + path + " is not valid JSON: "@;
    match crate::json::parsed(text) {
        Err(e) => Err(crate::error::failure(ApiErrorKind::Protocol, bad + e)),
        Ok(j) => match <Cassette as FromJson>::of(j) {
            None => Err(
                crate::error::failure(ApiErrorKind::Protocol, bad + "unexpected shape"@),
            ),
            Some(c) => if c.cassette_version != CASSETTE_VERSION {
                Err(
                    crate::error::failure(
                        ApiErrorKind::Protocol,
                        "cassette "@ + path + " has version "@ + crate::text::decimal(
                            c.cassette_version as nat,
                        ) + " but this build speaks version 1; re-record it"@,
                    ),
                )
            } else {
                Ok(c)
            },
        },
    }
}

/// What loading a cassette gives, given what reading its file brought.
pub open spec fn cassette_loaded(path: Seq<char>, read: Result<Seq<char>, Seq<char>>) -> Result<
    CassetteView,
    ApiErrorView,
> {
    match read {
        Err(cause) => Err(
            crate::error::failure(
                ApiErrorKind::Config,
                "cannot read cassette "@ + path + ": "@ + cause,
            ),
        ),
        Ok(text) => cassette_read(path, text),
    }
}

/// The content of a cassette or an error.
pub open spec fn cassette_view(r: Result<Cassette, ApiError>) -> Result<CassetteView, ApiErrorView> {
    match r {
        Ok(c) => Ok(c@),
        Err(e) => Err(e@),
    }
}

/// An empty cassette.
pub open spec fn empty_cassette() -> CassetteView {
    CassetteView {
        cassette_version: CASSETTE_VERSION,
        recorded_at_unix: None,
        base_url: None,
        models: seq![],
        interactions: seq![],
    }
}

/// Whether a request can be written exactly.
pub open spec fn request_exact(r: ChatRequestView) -> bool {
    &&& forall|i: int|
        0 <= i < r.tools.len() ==> crate::json::tidy(
            #[trigger] r.tools[i],
            RECORDED_NESTING as nat,
        )
    &&& forall|i: int| 0 <= i < r.messages.len() ==> message_exact(#[trigger] r.messages[i])
}

/// Whether a message can be written exactly.
pub open spec fn message_exact(m: ChatMessageView) -> bool {
    m.tool_calls matches Some(calls) ==> forall|i: int|
        0 <= i < calls.len() ==> crate::json::tidy(
            (#[trigger] calls[i]).arguments,
            RECORDED_NESTING as nat,
        )
}

/// Whether an event can be written exactly.
pub open spec fn event_exact(e: CoreEventView) -> bool {
    e matches CoreEventView::ToolCall { input, .. } ==> crate::json::tidy(
        input,
        RECORDED_NESTING as nat,
    )
}

/// Whether an interaction can be written exactly.
pub open spec fn interaction_exact(i: InteractionView) -> bool {
    &&& request_exact(i.request)
    &&& forall|k: int| 0 <= k < i.events.len() ==> event_exact(#[trigger] i.events[k])
}

/// Whether a cassette can be written exactly: the arguments, tools and inputs in
/// it hold each key once, hold integers only and are not nested too
/// deep.
pub open spec fn cassette_exact(c: CassetteView) -> bool {
    forall|i: int| 0 <= i < c.interactions.len() ==> interaction_exact(#[trigger] c.interactions[i])
}

impl Cassette {
    /// An empty cassette.
    pub fn new() -> (r: Cassette)
        ensures
            r@ == empty_cassette(),
    {
        let r = Cassette {
            cassette_version: CASSETTE_VERSION,
            recorded_at_unix: None,
            base_url: None,
            models: Vec::new(),
            interactions: Vec::new(),
        };
        assert(r@.models =~= seq![]);
        assert(r@.interactions =~= seq![]);
        r
    }

    /// The cassette in a file, given what reading it brought. Another version is
    /// refused.
    pub fn load(path: &str, read: Result<String, String>) -> (r: Result<Cassette, ApiError>)
        ensures
            cassette_view(r) == cassette_loaded(
                path@,
                match read {
                    Ok(t) => Ok(t@),
                    Err(e) => Err(e@),
                },
            ),
    {
        let text = match read {
            Ok(t) => t,
            Err(cause) => {
                let mut message = "cannot read cassette ".to_owned();
                message.append(path);
                message.append(": ");
                message.append(cause.as_str());
                return Err(ApiError::config(message.as_str()));
            },
        };
        let mut bad = "cassette ".to_owned();
        bad.append(path);
        bad.append(" is not valid JSON: ");
        let j = match Json::parse(text.as_str()) {
            Ok(j) => j,
            Err(e) => {
                bad.append(e.as_str());
                return Err(ApiError::new(ApiErrorKind::Protocol, bad.as_str()));
            },
        };
        let c = match <Cassette as FromJson>::from_json(&j) {
            Some(c) => c,
            None => {
                bad.append("unexpected shape");
                return Err(ApiError::new(ApiErrorKind::Protocol, bad.as_str()));
            },
        };
        if c.cassette_version != CASSETTE_VERSION {
            let mut message = "cassette ".to_owned();
            message.append(path);
            message.append(" has version ");
            message.append(decimal_of(c.cassette_version as u64).as_str());
            message.append(" but this build speaks version 1; re-record it");
            return Err(ApiError::new(ApiErrorKind::Protocol, message.as_str()));
        }
        Ok(c)
    }

    /// The JSON form.
    pub fn to_json(&self) -> (r: Json)
        ensures
            r@ == cassette_json(self@),
    {
        let ghost f = |f: (&str, Json)| crate::json::entry(f.0@, f.1@);
        let mut models: Vec<Json> = Vec::new();
        let mut i: usize = 0;
        while i < self.models.len()
            invariant
                i <= self.models.len(),
                models@.len() == i,
                forall|k: int|
                    0 <= k < i ==> (#[trigger] models@[k])@ == model_json(self.models@[k]@),
            decreases self.models.len() - i,
        {
            models.push(model_to_json(&self.models[i]));
            i = i + 1;
        }
        let models_array = Json::Array(models);
        proof {
            crate::json::lemma_array_view(models_array);
            assert(crate::json::views(models@) =~= models_json(self@.models));
        }
        let mut items: Vec<Json> = Vec::new();
        let mut k: usize = 0;
        while k < self.interactions.len()
            invariant
                k <= self.interactions.len(),
                items@.len() == k,
                forall|n: int|
                    0 <= n < k ==> (#[trigger] items@[n])@ == interaction_json(
                        self.interactions@[n]@,
                    ),
            decreases self.interactions.len() - k,
        {
            items.push(interaction_to_json(&self.interactions[k]));
            k = k + 1;
        }
        let array = Json::Array(items);
        proof {
            crate::json::lemma_array_view(array);
            assert(crate::json::views(items@) =~= interactions_json(self@.interactions));
        }
        let mut fields: Vec<(&str, Json)> = vec![
            ("cassette_version", Json::of_u64(self.cassette_version as u64)),
        ];
        let ghost one = seq![
            crate::json::entry("cassette_version"@, JsonView::U64(self.cassette_version as u64)),
        ];
        assert(fields@.map_values(f) =~= one);
        if let Some(n) = self.recorded_at_unix {
            fields.push(("recorded_at_unix", Json::of_u64(n)));
        }
        let ghost two = number_field("recorded_at_unix"@, self@.recorded_at_unix);
        assert(fields@.map_values(f) =~= one + two);
        if let Some(u) = &self.base_url {
            fields.push(("base_url", Json::Str(u.clone())));
        }
        assert(fields@.map_values(f) =~= one + two + crate::fields::text_field(
            "base_url"@,
            self@.base_url,
        ));
        fields.push(("models", models_array));
        fields.push(("interactions", array));
        assert(fields@.map_values(f) =~= cassette_fields(self@));
        Json::of_fields(fields)
    }

    /// The text of the cassette's file. It reads back as the cassette.
    pub fn file_text(&self) -> (r: String)
        ensures
            r@ == crate::json::tree_pretty(crate::json::settle(cassette_json(self@))),
            cassette_exact(self@) && self.cassette_version == CASSETTE_VERSION ==> forall|
                path: Seq<char>,
            | #[trigger]
                cassette_read(path, r@) == Ok::<CassetteView, ApiErrorView>(self@),
    {
        let j = self.to_json();
        let r = j.to_pretty_text();
        proof {
            if cassette_exact(self@) && self.cassette_version == CASSETTE_VERSION {
                lemma_cassette_tidy(self@);
                crate::json::lemma_settle(j@);
                cassette_round_trip(self@);
            }
        }
        r
    }
}

/// An artifact reads back as it was.
proof fn lemma_file_read(a: ArtifactView)
    ensures
        <Artifact as FromJson>::of(file_json(a)) == Some(a),
{
    reveal_strlit("path");
    reveal_strlit("mime_hint");
    assert("path"@.len() == 4);
    assert("mime_hint"@.len() == 9);
    let all = file_fields(a);
    crate::json::lemma_collect_has(all, 0);
    if a.mime_hint is Some {
        crate::json::lemma_collect_has(all, 1);
    } else {
        crate::json::lemma_collect_lacks(all, "mime_hint"@);
    }
}

/// A recorded message reads back as it was.
proof fn lemma_message_read(m: ChatMessageView)
    ensures
        <ChatMessage as FromJson>::of(recorded_json(m)) == Some(m),
{
    reveal_strlit("role");
    reveal_strlit("content");
    reveal_strlit("reasoning");
    reveal_strlit("tool_calls");
    reveal_strlit("tool_call_id");
    reveal_strlit("artifacts");
    assert("role"@.len() == 4);
    assert("content"@.len() == 7);
    assert("reasoning"@.len() == 9);
    assert("tool_calls"@.len() == 10);
    assert("tool_call_id"@.len() == 12);
    assert("artifacts"@.len() == 9);
    assert("reasoning"@[0] != "artifacts"@[0]);
    let all = recorded_fields(m);
    let a = crate::fields::text_field("reasoning"@, m.reasoning).len() as int;
    let b = recorded_calls(m.tool_calls).len() as int;
    let c = crate::fields::text_field("tool_call_id"@, m.tool_call_id).len() as int;
    crate::json::lemma_collect_has(all, 0);
    crate::json::lemma_collect_has(all, 1);
    crate::llm::types::role_names_are_distinct(m.role);
    if m.reasoning is Some {
        crate::json::lemma_collect_has(all, 2);
    } else {
        crate::json::lemma_collect_lacks(all, "reasoning"@);
    }
    if let Some(calls) = m.tool_calls {
        crate::json::lemma_collect_has(all, 2 + a);
        let js = calls.map_values(
            |c: ToolCallView| crate::conversations::stored_call_json(c),
        );
        assert forall|i: int| 0 <= i < js.len() implies <crate::llm::types::ToolCall as FromJson>::of(
            #[trigger] js[i],
        ) == Some(calls[i]) by {
            crate::conversations::lemma_call_read(calls[i]);
        }
        crate::fields::lemma_all_of::<crate::llm::types::ToolCall>(js, calls);
    } else {
        crate::json::lemma_collect_lacks(all, "tool_calls"@);
    }
    if m.tool_call_id is Some {
        crate::json::lemma_collect_has(all, 2 + a + b);
    } else {
        crate::json::lemma_collect_lacks(all, "tool_call_id"@);
    }
    if m.artifacts.len() > 0 {
        crate::json::lemma_collect_has(all, 2 + a + b + c);
        let js = files_json(m.artifacts);
        assert forall|i: int| 0 <= i < js.len() implies <Artifact as FromJson>::of(#[trigger] js[i])
            == Some(m.artifacts[i]) by {
            lemma_file_read(m.artifacts[i]);
        }
        crate::fields::lemma_all_of::<Artifact>(js, m.artifacts);
    } else {
        crate::json::lemma_collect_lacks(all, "artifacts"@);
        assert(m.artifacts =~= seq![]);
    }
}

/// A recorded request reads back as it was.
proof fn lemma_request_read(r: ChatRequestView)
    ensures
        <ChatRequest as FromJson>::of(recorded_request(r)) == Some(r),
{
    reveal_strlit("model");
    reveal_strlit("messages");
    reveal_strlit("reasoning_effort");
    reveal_strlit("tools");
    reveal_strlit("max_tokens");
    assert("model"@.len() == 5);
    assert("messages"@.len() == 8);
    assert("reasoning_effort"@.len() == 16);
    assert("tools"@.len() == 5);
    assert("max_tokens"@.len() == 10);
    assert("model"@[0] != "tools"@[0]);
    let all = request_fields(r);
    let a = crate::fields::text_field("reasoning_effort"@, r.reasoning_effort).len() as int;
    let b = list_field("tools"@, r.tools).len() as int;
    crate::json::lemma_collect_has(all, 0);
    crate::json::lemma_collect_has(all, 1);
    let js = messages_json(r.messages);
    assert forall|i: int| 0 <= i < js.len() implies <ChatMessage as FromJson>::of(#[trigger] js[i])
        == Some(r.messages[i]) by {
        lemma_message_read(r.messages[i]);
    }
    crate::fields::lemma_all_of::<ChatMessage>(js, r.messages);
    if r.reasoning_effort is Some {
        crate::json::lemma_collect_has(all, 2);
    } else {
        crate::json::lemma_collect_lacks(all, "reasoning_effort"@);
    }
    if r.tools.len() > 0 {
        crate::json::lemma_collect_has(all, 2 + a);
    } else {
        crate::json::lemma_collect_lacks(all, "tools"@);
        assert(r.tools =~= seq![]);
    }
    if r.max_tokens is Some {
        crate::json::lemma_collect_has(all, 2 + a + b);
    } else {
        crate::json::lemma_collect_lacks(all, "max_tokens"@);
    }
}

/// A model reads back as it was.
proof fn lemma_model_read(m: ModelInfoView)
    ensures
        <ModelInfo as FromJson>::of(model_json(m)) == Some(m),
{
    reveal_strlit("id");
    reveal_strlit("reasoning_effort_levels");
    reveal_strlit("default_reasoning_effort");
    assert("id"@.len() == 2);
    assert("reasoning_effort_levels"@.len() == 23);
    assert("default_reasoning_effort"@.len() == 24);
    let all = model_fields(m);
    let levels = crate::fields::strs_json(m.reasoning_effort_levels);
    let a = list_field("reasoning_effort_levels"@, levels).len() as int;
    crate::json::lemma_collect_has(all, 0);
    if m.reasoning_effort_levels.len() > 0 {
        crate::json::lemma_collect_has(all, 1);
        crate::fields::lemma_all_strs(m.reasoning_effort_levels);
    } else {
        crate::json::lemma_collect_lacks(all, "reasoning_effort_levels"@);
        assert(m.reasoning_effort_levels =~= seq![]);
    }
    if m.default_reasoning_effort is Some {
        crate::json::lemma_collect_has(all, 1 + a);
    } else {
        crate::json::lemma_collect_lacks(all, "default_reasoning_effort"@);
    }
}

/// An interaction reads back as it was.
proof fn lemma_interaction_read(i: InteractionView)
    ensures
        <Interaction as FromJson>::of(interaction_json(i)) == Some(i),
{
    reveal_strlit("request");
    reveal_strlit("events");
    assert("request"@.len() == 7);
    assert("events"@.len() == 6);
    let all = interaction_fields(i);
    crate::json::lemma_collect_has(all, 0);
    crate::json::lemma_collect_has(all, 1);
    lemma_request_read(i.request);
    let js = events_json(i.events);
    assert forall|k: int| 0 <= k < js.len() implies <CoreEvent as FromJson>::of(#[trigger] js[k])
        == Some(i.events[k]) by {
        crate::events_json::event_round_trip(i.events[k]);
    }
    crate::fields::lemma_all_of::<CoreEvent>(js, i.events);
}

/// A cassette reads back as it was.
pub proof fn cassette_round_trip(c: CassetteView)
    ensures
        <Cassette as FromJson>::of(cassette_json(c)) == Some(c),
{
    reveal_strlit("cassette_version");
    reveal_strlit("models");
    reveal_strlit("interactions");
    reveal_strlit("recorded_at_unix");
    reveal_strlit("base_url");
    assert("cassette_version"@.len() == 16);
    assert("models"@.len() == 6);
    assert("interactions"@.len() == 12);
    assert("recorded_at_unix"@.len() == 16);
    assert("base_url"@.len() == 8);
    assert("cassette_version"@[0] != "recorded_at_unix"@[0]);
    let all = cassette_fields(c);
    let a = number_field("recorded_at_unix"@, c.recorded_at_unix).len() as int;
    crate::json::lemma_collect_has(all, 0);
    let b = crate::fields::text_field("base_url"@, c.base_url).len() as int;
    crate::json::lemma_collect_has(all, 1 + a + b);
    crate::json::lemma_collect_has(all, 2 + a + b);
    if c.recorded_at_unix is Some {
        crate::json::lemma_collect_has(all, 1);
    } else {
        crate::json::lemma_collect_lacks(all, "recorded_at_unix"@);
    }
    if c.base_url is Some {
        crate::json::lemma_collect_has(all, 1 + a);
    } else {
        crate::json::lemma_collect_lacks(all, "base_url"@);
    }
    let ms = models_json(c.models);
    assert forall|k: int| 0 <= k < ms.len() implies <ModelInfo as FromJson>::of(#[trigger] ms[k])
        == Some(c.models[k]) by {
        lemma_model_read(c.models[k]);
    }
    crate::fields::lemma_all_of::<ModelInfo>(ms, c.models);
    let js = interactions_json(c.interactions);
    assert forall|k: int| 0 <= k < js.len() implies <Interaction as FromJson>::of(#[trigger] js[k])
        == Some(c.interactions[k]) by {
        lemma_interaction_read(c.interactions[k]);
    }
    crate::fields::lemma_all_of::<Interaction>(js, c.interactions);
}

/// A recorded message is tidy.
proof fn lemma_recorded_tidy(m: ChatMessageView)
    requires
        message_exact(m),
    ensures
        crate::json::tidy(recorded_json(m), (RECORDED_NESTING + 3) as nat),
{
    let all = recorded_fields(m);
    let d = (RECORDED_NESTING + 2) as nat;
    if let Some(calls) = m.tool_calls {
        let js = calls.map_values(
            |c: ToolCallView| crate::conversations::stored_call_json(c),
        );
        assert forall|i: int| 0 <= i < js.len() implies crate::json::tidy(
            #[trigger] js[i],
            (RECORDED_NESTING + 1) as nat,
        ) by {
            let fs = crate::conversations::stored_call_fields(calls[i]);
            assert forall|k: int| 0 <= k < fs.len() implies crate::json::tidy(
                (#[trigger] fs[k]).value,
                RECORDED_NESTING as nat,
            ) by {}
            crate::json::lemma_tidy_object(fs, (RECORDED_NESTING + 1) as nat);
        }
        crate::json::lemma_tidy_array(js, d);
    }
    let js = files_json(m.artifacts);
    assert forall|i: int| 0 <= i < js.len() implies crate::json::tidy(
        #[trigger] js[i],
        (RECORDED_NESTING + 1) as nat,
    ) by {
        let fs = file_fields(m.artifacts[i]);
        assert forall|k: int| 0 <= k < fs.len() implies crate::json::tidy(
            (#[trigger] fs[k]).value,
            RECORDED_NESTING as nat,
        ) by {}
        crate::json::lemma_tidy_object(fs, (RECORDED_NESTING + 1) as nat);
    }
    crate::json::lemma_tidy_array(js, d);
    assert forall|i: int| 0 <= i < all.len() implies crate::json::tidy(
        (#[trigger] all[i]).value,
        d,
    ) by {}
    crate::json::lemma_tidy_object(all, (RECORDED_NESTING + 3) as nat);
}

/// What is tidy at a depth is tidy at a greater one.
proof fn lemma_tidy_more(j: JsonView, a: nat, b: nat)
    requires
        crate::json::tidy(j, a),
        a <= b,
    ensures
        crate::json::tidy(j, b),
{
    crate::json::lemma_nested_more(j, a, b);
}

proof fn lemma_request_tidy(r: ChatRequestView)
    requires
        request_exact(r),
    ensures
        crate::json::tidy(recorded_request(r), (RECORDED_NESTING + 5) as nat),
{
    let all = request_fields(r);
    let d = (RECORDED_NESTING + 4) as nat;
    let js = messages_json(r.messages);
    assert forall|i: int| 0 <= i < js.len() implies crate::json::tidy(
        #[trigger] js[i],
        (RECORDED_NESTING + 3) as nat,
    ) by {
        assert(message_exact(r.messages[i]));
        lemma_recorded_tidy(r.messages[i]);
    }
    crate::json::lemma_tidy_array(js, d);
    assert forall|i: int| 0 <= i < r.tools.len() implies crate::json::tidy(
        #[trigger] r.tools[i],
        (RECORDED_NESTING + 3) as nat,
    ) by {
        lemma_tidy_more(r.tools[i], RECORDED_NESTING as nat, (RECORDED_NESTING + 3) as nat);
    }
    crate::json::lemma_tidy_array(r.tools, d);
    assert forall|i: int| 0 <= i < all.len() implies crate::json::tidy(
        (#[trigger] all[i]).value,
        d,
    ) by {}
    crate::json::lemma_tidy_object(all, (RECORDED_NESTING + 5) as nat);
}

proof fn lemma_event_tidy(e: CoreEventView)
    requires
        event_exact(e),
    ensures
        crate::json::tidy(crate::events_json::event_json(e), (RECORDED_NESTING + 1) as nat),
{
    let all = crate::events_json::event_fields(e);
    match e {
        CoreEventView::ApprovalRequest { id, kind, summary } => {
            crate::events_json::lemma_approval_tidy(kind, RECORDED_NESTING as nat);
        },
        CoreEventView::TurnDone { usage } => {
            if let Some(u) = usage {
                crate::events_json::lemma_usage_tidy(u, RECORDED_NESTING as nat);
            }
        },
        _ => {},
    }
    assert forall|i: int| 0 <= i < all.len() implies crate::json::tidy(
        (#[trigger] all[i]).value,
        RECORDED_NESTING as nat,
    ) by {}
    crate::json::lemma_tidy_object(all, (RECORDED_NESTING + 1) as nat);
}

proof fn lemma_interaction_tidy(i: InteractionView)
    requires
        interaction_exact(i),
    ensures
        crate::json::tidy(interaction_json(i), (RECORDED_NESTING + 6) as nat),
{
    let all = interaction_fields(i);
    let d = (RECORDED_NESTING + 5) as nat;
    lemma_request_tidy(i.request);
    let js = events_json(i.events);
    assert forall|k: int| 0 <= k < js.len() implies crate::json::tidy(
        #[trigger] js[k],
        (RECORDED_NESTING + 4) as nat,
    ) by {
        assert(event_exact(i.events[k]));
        lemma_event_tidy(i.events[k]);
        lemma_tidy_more(js[k], (RECORDED_NESTING + 1) as nat, (RECORDED_NESTING + 4) as nat);
    }
    crate::json::lemma_tidy_array(js, d);
    assert forall|k: int| 0 <= k < all.len() implies crate::json::tidy(
        (#[trigger] all[k]).value,
        d,
    ) by {}
    crate::json::lemma_tidy_object(all, (RECORDED_NESTING + 6) as nat);
}

proof fn lemma_model_tidy(m: ModelInfoView)
    ensures
        crate::json::tidy(model_json(m), (RECORDED_NESTING + 6) as nat),
{
    let all = model_fields(m);
    let d = (RECORDED_NESTING + 5) as nat;
    crate::json::lemma_tidy_simple_array(
        crate::fields::strs_json(m.reasoning_effort_levels),
        d,
    );
    assert forall|k: int| 0 <= k < all.len() implies crate::json::tidy(
        (#[trigger] all[k]).value,
        d,
    ) by {}
    crate::json::lemma_tidy_object(all, (RECORDED_NESTING + 6) as nat);
}

proof fn lemma_cassette_tidy(c: CassetteView)
    requires
        cassette_exact(c),
    ensures
        crate::json::tidy(cassette_json(c), crate::json::MAX_NESTING as nat),
{
    let all = cassette_fields(c);
    let d = (RECORDED_NESTING + 7) as nat;
    let ms = models_json(c.models);
    assert forall|k: int| 0 <= k < ms.len() implies crate::json::tidy(
        #[trigger] ms[k],
        (RECORDED_NESTING + 6) as nat,
    ) by {
        lemma_model_tidy(c.models[k]);
    }
    crate::json::lemma_tidy_array(ms, d);
    let js = interactions_json(c.interactions);
    assert forall|k: int| 0 <= k < js.len() implies crate::json::tidy(
        #[trigger] js[k],
        (RECORDED_NESTING + 6) as nat,
    ) by {
        assert(interaction_exact(c.interactions[k]));
        lemma_interaction_tidy(c.interactions[k]);
    }
    crate::json::lemma_tidy_array(js, d);
    assert forall|k: int| 0 <= k < all.len() implies crate::json::tidy(
        (#[trigger] all[k]).value,
        d,
    ) by {}
    crate::json::lemma_tidy_object(all, (RECORDED_NESTING + 8) as nat);
    lemma_tidy_more(
        cassette_json(c),
        (RECORDED_NESTING + 8) as nat,
        crate::json::MAX_NESTING as nat,
    );
}

/// The file of a recording says every interaction, in its order, and where it was
/// recorded.
pub proof fn file_says_its_interactions(c: CassetteView)
    ensures
        ({
            let j = cassette_json(c);
            &&& crate::fields::u64_at(j, "cassette_version"@) == Some(c.cassette_version as u64)
            &&& crate::fields::str_at(j, "base_url"@) == c.base_url
            &&& crate::fields::u64_at(j, "recorded_at_unix"@) == c.recorded_at_unix
            &&& crate::fields::member(j, "interactions"@) matches Some(JsonView::Array(a))
                && a.len() == c.interactions.len() && forall|i: int|
                0 <= i < a.len() ==> #[trigger] a[i] == interaction_json(c.interactions[i])
        }),
{
    reveal_strlit("cassette_version");
    reveal_strlit("recorded_at_unix");
    reveal_strlit("base_url");
    reveal_strlit("models");
    reveal_strlit("interactions");
    assert("cassette_version"@.len() == 16);
    assert("recorded_at_unix"@.len() == 16);
    assert("base_url"@.len() == 8);
    assert("models"@.len() == 6);
    assert("interactions"@.len() == 12);
    assert("cassette_version"@[0] != "recorded_at_unix"@[0]);
    let all = cassette_fields(c);
    let a = number_field("recorded_at_unix"@, c.recorded_at_unix).len() as int;
    let b = crate::fields::text_field("base_url"@, c.base_url).len() as int;
    crate::json::lemma_collect_has(all, 0);
    crate::json::lemma_collect_has(all, 2 + a + b);
    if c.recorded_at_unix is Some {
        crate::json::lemma_collect_has(all, 1);
    } else {
        crate::json::lemma_collect_lacks(all, "recorded_at_unix"@);
    }
    if c.base_url is Some {
        crate::json::lemma_collect_has(all, 1 + a);
    } else {
        crate::json::lemma_collect_lacks(all, "base_url"@);
    }
}

/// A recorded interaction says what was asked and every event that came, in its
/// order.
pub proof fn interaction_says_what_took_place(i: InteractionView)
    ensures
        ({
            let j = interaction_json(i);
            &&& crate::fields::member(j, "request"@) == Some(recorded_request(i.request))
            &&& crate::fields::member(j, "events"@) matches Some(JsonView::Array(a)) && a.len()
                == i.events.len() && forall|k: int|
                0 <= k < a.len() ==> #[trigger] a[k] == crate::events_json::event_json(i.events[k])
        }),
{
    reveal_strlit("request");
    reveal_strlit("events");
    assert("request"@.len() == 7);
    assert("events"@.len() == 6);
    crate::json::lemma_collect_has(interaction_fields(i), 0);
    crate::json::lemma_collect_has(interaction_fields(i), 1);
}

} // verus!

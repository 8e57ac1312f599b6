//! The wire forms of the OpenAI-compatible protocol: what is sent to a provider
//! and what is read from its answers. Fields that are not known are ignored.

use vstd::prelude::*;

use crate::events::Usage;
use crate::fields::{
    read_list, read_opt, read_opt_str, read_opt_u64, read_record, read_str_or_empty,
    read_uint_or, FromJson, Record,
};
use crate::json::{Json, JsonView};
use crate::llm::types::{
    ChatMessage, ChatMessageView, ChatRequest, ChatRequestView, ModelInfo, ModelInfoView, ToolCall,
    ToolCallView,
};
use crate::text::{blank, char_count};

verus! {

/// The wire form of a tool call: its arguments stand there as a JSON text.
pub open spec fn call_json(c: ToolCallView) -> JsonView {
    crate::json::object(
        seq![
            crate::json::entry("id"@, JsonView::Str(c.id)),
            crate::json::entry("type"@, JsonView::Str("function"@)),
            crate::json::entry(
                "function"@,
                crate::json::object(
                    seq![
                        crate::json::entry("name"@, JsonView::Str(c.name)),
                        crate::json::entry(
                            "arguments"@,
                            JsonView::Str(
                                crate::json::tree_text(crate::json::settle(c.arguments)),
                            ),
                        ),
                    ],
                ),
            ),
        ],
    )
}

/// The content of a message on the wire: an assistant message that only
/// requests tools has none.
pub open spec fn content_json(m: ChatMessageView) -> JsonView {
    if m.content.len() == 0 && m.tool_calls is Some {
        JsonView::Null
    } else {
        JsonView::Str(m.content)
    }
}

/// The fields of a message on the wire. Thinking and artifacts are not sent.
pub open spec fn message_fields(m: ChatMessageView) -> Seq<crate::json::FieldView> {
    seq![
        crate::json::entry("role"@, JsonView::Str(crate::llm::types::role_name(m.role))),
        crate::json::entry("content"@, content_json(m)),
    ] + (match m.tool_calls {
        Some(calls) => seq![
            crate::json::entry(
                "tool_calls"@,
                JsonView::Array(calls.map_values(|c: ToolCallView| call_json(c))),
            ),
        ],
        None => seq![],
    }) + (match m.tool_call_id {
        Some(id) => seq![crate::json::entry("tool_call_id"@, JsonView::Str(id))],
        None => seq![],
    })
}

/// The wire form of a message.
pub open spec fn message_json(m: ChatMessageView) -> JsonView {
    crate::json::object(message_fields(m))
}

/// What is only shown stays here: neither a message's thinking nor its files are
/// sent to the provider.
pub proof fn thinking_and_files_are_not_sent(
    m: ChatMessageView,
    reasoning: Option<Seq<char>>,
    artifacts: Seq<crate::events::ArtifactView>,
)
    ensures
        message_json(
            (ChatMessageView { reasoning: reasoning, artifacts: artifacts, ..m }),
        ) == message_json(m),
{
}

/// The fields of a streaming request: the provider is asked to report usage,
/// and what is not set is left out.
pub open spec fn request_fields(r: ChatRequestView) -> Seq<crate::json::FieldView> {
    seq![
        crate::json::entry("model"@, JsonView::Str(r.model)),
        crate::json::entry(
            "messages"@,
            JsonView::Array(r.messages.map_values(|m: ChatMessageView| message_json(m))),
        ),
        crate::json::entry("stream"@, JsonView::Bool(true)),
        crate::json::entry(
            "stream_options"@,
            crate::json::object(
                seq![crate::json::entry("include_usage"@, JsonView::Bool(true))],
            ),
        ),
    ] + (match r.reasoning_effort {
        Some(e) => seq![crate::json::entry("reasoning_effort"@, JsonView::Str(e))],
        None => seq![],
    }) + (if r.tools.len() > 0 {
        seq![crate::json::entry("tools"@, JsonView::Array(r.tools))]
    } else {
        seq![]
    }) + (match r.max_tokens {
        Some(n) => seq![crate::json::entry("max_tokens"@, JsonView::U64(n as u64))],
        None => seq![],
    })
}

/// The body of a streaming chat request.
pub open spec fn request_json(r: ChatRequestView) -> JsonView {
    crate::json::object(request_fields(r))
}

/// The wire form of a tool call.
fn call_to_json(c: &ToolCall) -> (r: Json)
    ensures
        r@ == call_json(c@),
{
    let ghost f = |f: (&str, Json)| crate::json::entry(f.0@, f.1@);
    let inner: Vec<(&str, Json)> = vec![
        ("name", Json::Str(c.name.clone())),
        ("arguments", Json::Str(c.arguments.to_text())),
    ];
    assert(inner@.map_values(f) =~= seq![
        crate::json::entry("name"@, JsonView::Str(c@.name)),
        crate::json::entry(
            "arguments"@,
            JsonView::Str(crate::json::tree_text(crate::json::settle(c@.arguments))),
        ),
    ]);
    let function = Json::of_fields(inner);
    let outer: Vec<(&str, Json)> = vec![
        ("id", Json::Str(c.id.clone())),
        ("type", Json::of_str("function")),
        ("function", function),
    ];
    assert(outer@.map_values(f) =~= seq![
        crate::json::entry("id"@, JsonView::Str(c@.id)),
        crate::json::entry("type"@, JsonView::Str("function"@)),
        crate::json::entry("function"@, function@),
    ]);
    Json::of_fields(outer)
}

/// The wire form of a message.
pub fn message_to_json(m: &ChatMessage) -> (r: Json)
    ensures
        r@ == message_json(m@),
{
    let ghost f = |f: (&str, Json)| crate::json::entry(f.0@, f.1@);
    let tool_only = match &m.tool_calls {
        Some(_) => char_count(m.content.as_str()) == 0,
        None => false,
    };
    let content = if tool_only {
        Json::Null
    } else {
        Json::Str(m.content.clone())
    };
    let mut fields: Vec<(&str, Json)> = vec![
        ("role", Json::of_str(m.role.wire_name())),
        ("content", content),
    ];
    let ghost start = seq![
        crate::json::entry("role"@, JsonView::Str(crate::llm::types::role_name(m.role))),
        crate::json::entry("content"@, content_json(m@)),
    ];
    assert(fields@.map_values(f) =~= start);
    let ghost more = match m@.tool_calls {
        Some(calls) => seq![
            crate::json::entry(
                "tool_calls"@,
                JsonView::Array(calls.map_values(|c: ToolCallView| call_json(c))),
            ),
        ],
        None => seq![],
    };
    if let Some(calls) = &m.tool_calls {
        let mut items: Vec<Json> = Vec::new();
        let mut i: usize = 0;
        while i < calls.len()
            invariant
                i <= calls.len(),
                items@.len() == i,
                forall|k: int| 0 <= k < i ==> (#[trigger] items@[k])@ == call_json(calls@[k]@),
            decreases calls.len() - i,
        {
            items.push(call_to_json(&calls[i]));
            i = i + 1;
        }
        let array = Json::Array(items);
        proof {
            crate::json::lemma_array_view(array);
            assert(crate::json::views(items@) =~= m@.tool_calls->0.map_values(
                |c: ToolCallView| call_json(c),
            ));
        }
        fields.push(("tool_calls", array));
    }
    assert(fields@.map_values(f) =~= start + more);
    if let Some(id) = &m.tool_call_id {
        fields.push(("tool_call_id", Json::Str(id.clone())));
    }
    assert(fields@.map_values(f) =~= message_fields(m@));
    Json::of_fields(fields)
}

/// The body of a streaming chat request.
pub fn request_to_json(request: &ChatRequest) -> (r: Json)
    ensures
        r@ == request_json(request@),
{
    let ghost f = |f: (&str, Json)| crate::json::entry(f.0@, f.1@);
    let ghost req = request@;
    let mut items: Vec<Json> = Vec::new();
    let mut i: usize = 0;
    while i < request.messages.len()
        invariant
            i <= request.messages.len(),
            items@.len() == i,
            forall|k: int|
                0 <= k < i ==> (#[trigger] items@[k])@ == message_json(request.messages@[k]@),
        decreases request.messages.len() - i,
    {
        items.push(message_to_json(&request.messages[i]));
        i = i + 1;
    }
    let messages = Json::Array(items);
    proof {
        crate::json::lemma_array_view(messages);
        assert(crate::json::views(items@) =~= req.messages.map_values(
            |m: ChatMessageView| message_json(m),
        ));
    }
    let options: Vec<(&str, Json)> = vec![("include_usage", Json::Bool(true))];
    assert(options@.map_values(f) =~= seq![
        crate::json::entry("include_usage"@, JsonView::Bool(true)),
    ]);
    let stream_options = Json::of_fields(options);
    let mut fields: Vec<(&str, Json)> = vec![
        ("model", Json::Str(request.model.clone())),
        ("messages", messages),
        ("stream", Json::Bool(true)),
        ("stream_options", stream_options),
    ];
    let ghost start = seq![
        crate::json::entry("model"@, JsonView::Str(req.model)),
        crate::json::entry("messages"@, messages@),
        crate::json::entry("stream"@, JsonView::Bool(true)),
        crate::json::entry("stream_options"@, stream_options@),
    ];
    assert(fields@.map_values(f) =~= start);
    let ghost one = match req.reasoning_effort {
        Some(e) => seq![crate::json::entry("reasoning_effort"@, JsonView::Str(e))],
        None => seq![],
    };
    if let Some(e) = &request.reasoning_effort {
        fields.push(("reasoning_effort", Json::Str(e.clone())));
    }
    assert(fields@.map_values(f) =~= start + one);
    let ghost two = if req.tools.len() > 0 {
        seq![crate::json::entry("tools"@, JsonView::Array(req.tools))]
    } else {
        seq![]
    };
    if request.tools.len() > 0 {
        let mut tools: Vec<Json> = Vec::new();
        let mut k: usize = 0;
        while k < request.tools.len()
            invariant
                k <= request.tools.len(),
                tools@.len() == k,
                forall|n: int| 0 <= n < k ==> (#[trigger] tools@[n])@ == request.tools@[n]@,
            decreases request.tools.len() - k,
        {
            tools.push(request.tools[k].copy());
            k = k + 1;
        }
        let array = Json::Array(tools);
        proof {
            crate::json::lemma_array_view(array);
            assert(crate::json::views(tools@) =~= req.tools);
        }
        fields.push(("tools", array));
    }
    assert(fields@.map_values(f) =~= start + one + two);
    if let Some(n) = request.max_tokens {
        fields.push(("max_tokens", Json::of_u64(n as u64)));
    }
    assert(fields@.map_values(f) =~= request_fields(req));
    Json::of_fields(fields)
}

/// Usage as a provider reports it.
#[derive(Debug, Clone, Copy, PartialEq, Eq, Structural)]
pub struct WireUsage {
    pub prompt_tokens: Option<u64>,
    pub completion_tokens: Option<u64>,
    pub total_tokens: Option<u64>,
}

impl View for WireUsage {
    type V = WireUsage;

    open spec fn view(&self) -> WireUsage {
        *self
    }
}

/// A provider's report in the library's terms: a total that is missing is the
/// sum of both parts, where both are there.
pub open spec fn usage_from(u: WireUsage) -> Usage {
    Usage {
        input_tokens: u.prompt_tokens,
        output_tokens: u.completion_tokens,
        total_tokens: match u.total_tokens {
            Some(n) => Some(n),
            None => if u.prompt_tokens is Some && u.completion_tokens is Some {
                Some(crate::events::count_sum(u.prompt_tokens, u.completion_tokens))
            } else {
                None
            },
        },
    }
}

impl WireUsage {
    /// The report in the library's terms.
    pub fn into_usage(self) -> (r: Usage)
        ensures
            r == usage_from(self),
    {
        let total: Option<u64> = match (self.total_tokens, self.prompt_tokens, self.completion_tokens) {
            (Some(n), _, _) => Some(n),
            (None, Some(i), Some(o)) => Some(i.wrapping_add(o)),
            _ => None,
        };
        Usage {
            input_tokens: self.prompt_tokens,
            output_tokens: self.completion_tokens,
            total_tokens: total,
        }
    }
}

impl Record for WireUsage {
    open spec fn names() -> Seq<Seq<char>> {
        seq!["prompt_tokens"@, "completion_tokens"@, "total_tokens"@]
    }

    open spec fn of_object(j: JsonView) -> Option<WireUsage> {
        match (
            crate::fields::opt_u64_at(j, "prompt_tokens"@),
            crate::fields::opt_u64_at(j, "completion_tokens"@),
            crate::fields::opt_u64_at(j, "total_tokens"@),
        ) {
            (Some(p), Some(c), Some(t)) => Some(WireUsage { prompt_tokens: p, completion_tokens: c, total_tokens: t }),
            _ => None,
        }
    }

    fn field_names() -> (r: Vec<&'static str>) {
        let r: Vec<&'static str> = vec!["prompt_tokens", "completion_tokens", "total_tokens"];
        assert(crate::fields::names_of(r@) =~= Self::names());
        r
    }

    fn from_object(j: &Json) -> (r: Option<WireUsage>) {
        match (
            read_opt_u64(j, "prompt_tokens"),
            read_opt_u64(j, "completion_tokens"),
            read_opt_u64(j, "total_tokens"),
        ) {
            (Some(p), Some(c), Some(t)) => Some(WireUsage { prompt_tokens: p, completion_tokens: c, total_tokens: t }),
            _ => None,
        }
    }
}

/// The function part of a tool call fragment.
#[derive(Debug)]
pub struct WireDeltaFunction {
    pub name: Option<String>,
    pub arguments: Option<String>,
}

/// The content of a [`WireDeltaFunction`].
#[verifier::ext_equal]
pub struct FunctionView {
    pub name: Option<Seq<char>>,
    pub arguments: Option<Seq<char>>,
}

impl View for WireDeltaFunction {
    type V = FunctionView;

    open spec fn view(&self) -> FunctionView {
        FunctionView {
            name: crate::text::opt_text(self.name),
            arguments: crate::text::opt_text(self.arguments),
        }
    }
}

impl Record for WireDeltaFunction {
    open spec fn names() -> Seq<Seq<char>> {
        seq!["name"@, "arguments"@]
    }

    open spec fn of_object(j: JsonView) -> Option<FunctionView> {
        match (
            crate::fields::opt_str_at(j, "name"@),
            crate::fields::opt_str_at(j, "arguments"@),
        ) {
            (Some(name), Some(arguments)) => Some(FunctionView { name: name, arguments: arguments }),
            _ => None,
        }
    }

    fn field_names() -> (r: Vec<&'static str>) {
        let r: Vec<&'static str> = vec!["name", "arguments"];
        assert(crate::fields::names_of(r@) =~= Self::names());
        r
    }

    fn from_object(j: &Json) -> (r: Option<WireDeltaFunction>) {
        match (read_opt_str(j, "name"), read_opt_str(j, "arguments")) {
            (Some(name), Some(arguments)) => Some(WireDeltaFunction { name, arguments }),
            _ => None,
        }
    }
}

/// One fragment of a streamed tool call; `index` ties the fragments of one call
/// together.
#[derive(Debug)]
pub struct WireDeltaToolCall {
    pub index: usize,
    pub id: Option<String>,
    pub function: Option<WireDeltaFunction>,
}

/// The content of a [`WireDeltaToolCall`].
#[verifier::ext_equal]
pub struct FragmentView {
    pub index: usize,
    pub id: Option<Seq<char>>,
    pub function: Option<FunctionView>,
}

impl View for WireDeltaToolCall {
    type V = FragmentView;

    open spec fn view(&self) -> FragmentView {
        FragmentView {
            index: self.index,
            id: crate::text::opt_text(self.id),
            function: crate::fields::opt_view(self.function),
        }
    }
}

/// The index of a fragment: 0 where it is missing.
pub open spec fn index_at(j: JsonView) -> Option<usize> {
    match crate::fields::uint_or(j, "index"@, 0, usize::MAX as u64) {
        Some(n) => Some(n as usize),
        None => None,
    }
}

impl Record for WireDeltaToolCall {
    open spec fn names() -> Seq<Seq<char>> {
        seq!["index"@, "id"@, "function"@]
    }

    open spec fn of_object(j: JsonView) -> Option<FragmentView> {
        match (
            index_at(j),
            crate::fields::opt_str_at(j, "id"@),
            crate::fields::opt_at::<WireDeltaFunction>(j, "function"@),
        ) {
            (Some(index), Some(id), Some(function)) => Some(FragmentView { index: index, id: id, function: function }),
            _ => None,
        }
    }

    fn field_names() -> (r: Vec<&'static str>) {
        let r: Vec<&'static str> = vec!["index", "id", "function"];
        assert(crate::fields::names_of(r@) =~= Self::names());
        r
    }

    fn from_object(j: &Json) -> (r: Option<WireDeltaToolCall>) {
        let index: Option<usize> = match read_uint_or(j, "index", 0, usize::MAX as u64) {
            Some(n) => Some(n as usize),
            None => None,
        };
        match (index, read_opt_str(j, "id"), read_opt::<WireDeltaFunction>(j, "function")) {
            (Some(index), Some(id), Some(function)) => Some(WireDeltaToolCall { index, id, function }),
            _ => None,
        }
    }
}

/// What one choice of a streamed chunk adds.
#[derive(Debug)]
pub struct WireDelta {
    pub content: Option<String>,
    pub reasoning: Option<String>,
    pub reasoning_content: Option<String>,
    pub tool_calls: Vec<WireDeltaToolCall>,
}

/// The content of a [`WireDelta`].
#[verifier::ext_equal]
pub struct DeltaView {
    pub content: Option<Seq<char>>,
    pub reasoning: Option<Seq<char>>,
    pub reasoning_content: Option<Seq<char>>,
    pub tool_calls: Seq<FragmentView>,
}

impl View for WireDelta {
    type V = DeltaView;

    open spec fn view(&self) -> DeltaView {
        DeltaView {
            content: crate::text::opt_text(self.content),
            reasoning: crate::text::opt_text(self.reasoning),
            reasoning_content: crate::text::opt_text(self.reasoning_content),
            tool_calls: crate::fields::views_of(self.tool_calls@),
        }
    }
}

/// The first of two texts that is there.
pub open spec fn first_of(a: Option<Seq<char>>, b: Option<Seq<char>>) -> Option<Seq<char>> {
    if a is Some {
        a
    } else {
        b
    }
}

impl Record for WireDelta {
    open spec fn names() -> Seq<Seq<char>> {
        seq!["content"@, "reasoning"@, "reasoning_content"@, "tool_calls"@]
    }

    open spec fn of_object(j: JsonView) -> Option<DeltaView> {
        match (
            crate::fields::opt_str_at(j, "content"@),
            crate::fields::opt_str_at(j, "reasoning"@),
            crate::fields::opt_str_at(j, "reasoning_content"@),
            crate::fields::list_at::<WireDeltaToolCall>(j, "tool_calls"@),
        ) {
            (Some(content), Some(reasoning), Some(thinking), Some(calls)) => Some(
                DeltaView {
                    content: content,
                    reasoning: reasoning,
                    reasoning_content: thinking,
                    tool_calls: calls,
                },
            ),
            _ => None,
        }
    }

    fn field_names() -> (r: Vec<&'static str>) {
        let r: Vec<&'static str> = vec![
            "content",
            "reasoning",
            "reasoning_content",
            "tool_calls",
        ];
        assert(crate::fields::names_of(r@) =~= Self::names());
        r
    }

    fn from_object(j: &Json) -> (r: Option<WireDelta>) {
        match (
            read_opt_str(j, "content"),
            read_opt_str(j, "reasoning"),
            read_opt_str(j, "reasoning_content"),
            read_list::<WireDeltaToolCall>(j, "tool_calls"),
        ) {
            (Some(content), Some(reasoning), Some(thinking), Some(calls)) => Some(
                WireDelta {
                    content,
                    reasoning,
                    reasoning_content: thinking,
                    tool_calls: calls,
                },
            ),
            _ => None,
        }
    }
}

/// The thinking text of an answer, `reasoning_content` before `reasoning`.
pub fn reasoning_text(reasoning_content: &Option<String>, reasoning: &Option<String>) -> (r: Option<
    String,
>)
    ensures
        crate::text::opt_text(r) == first_of(
            crate::text::opt_text(*reasoning_content),
            crate::text::opt_text(*reasoning),
        ),
{
    match (reasoning_content, reasoning) {
        (Some(s), _) => Some(s.clone()),
        (None, Some(s)) => Some(s.clone()),
        (None, None) => None,
    }
}

/// One choice of a streamed chunk.
#[derive(Debug)]
pub struct WireChoice {
    pub delta: WireDelta,
}

impl View for WireChoice {
    type V = DeltaView;

    open spec fn view(&self) -> DeltaView {
        self.delta@
    }
}

/// A choice that adds nothing.
pub open spec fn empty_delta() -> DeltaView {
    DeltaView { content: None, reasoning: None, reasoning_content: None, tool_calls: seq![] }
}

impl Record for WireChoice {
    open spec fn names() -> Seq<Seq<char>> {
        seq!["delta"@]
    }

    open spec fn of_object(j: JsonView) -> Option<DeltaView> {
        match crate::fields::member(j, "delta"@) {
            None => Some(empty_delta()),
            Some(x) => <WireDelta as FromJson>::of(x),
        }
    }

    fn field_names() -> (r: Vec<&'static str>) {
        let r: Vec<&'static str> = vec!["delta"];
        assert(crate::fields::names_of(r@) =~= Self::names());
        r
    }

    fn from_object(j: &Json) -> (r: Option<WireChoice>) {
        match j.get("delta") {
            None => {
                let r = WireChoice {
                    delta: WireDelta {
                        content: None,
                        reasoning: None,
                        reasoning_content: None,
                        tool_calls: Vec::new(),
                    },
                };
                assert(r@ =~= empty_delta());
                Some(r)
            },
            Some(x) => match WireDelta::from_json(x) {
                Some(delta) => Some(WireChoice { delta }),
                None => None,
            },
        }
    }
}

/// One streamed chunk.
#[derive(Debug)]
pub struct WireChunk {
    pub choices: Vec<WireChoice>,
    pub usage: Option<WireUsage>,
}

/// The content of a [`WireChunk`].
#[verifier::ext_equal]
pub struct ChunkView {
    pub choices: Seq<DeltaView>,
    pub usage: Option<WireUsage>,
}

impl View for WireChunk {
    type V = ChunkView;

    open spec fn view(&self) -> ChunkView {
        ChunkView {
            choices: crate::fields::views_of(self.choices@),
            usage: crate::fields::opt_view(self.usage),
        }
    }
}

impl Record for WireChunk {
    open spec fn names() -> Seq<Seq<char>> {
        seq!["choices"@, "usage"@]
    }

    open spec fn of_object(j: JsonView) -> Option<ChunkView> {
        match (
            crate::fields::list_at::<WireChoice>(j, "choices"@),
            crate::fields::opt_at::<WireUsage>(j, "usage"@),
        ) {
            (Some(choices), Some(usage)) => Some(ChunkView { choices: choices, usage: usage }),
            _ => None,
        }
    }

    fn field_names() -> (r: Vec<&'static str>) {
        let r: Vec<&'static str> = vec!["choices", "usage"];
        assert(crate::fields::names_of(r@) =~= Self::names());
        r
    }

    fn from_object(j: &Json) -> (r: Option<WireChunk>) {
        match (read_list::<WireChoice>(j, "choices"), read_opt::<WireUsage>(j, "usage")) {
            (Some(choices), Some(usage)) => Some(WireChunk { choices, usage }),
            _ => None,
        }
    }
}

/// A complete tool call of an answer that was not streamed.
#[derive(Debug)]
pub struct WireMessageToolCall {
    pub id: String,
    pub name: String,
    pub arguments: String,
}

/// The content of a [`WireMessageToolCall`].
#[verifier::ext_equal]
pub struct MessageCallView {
    pub id: Seq<char>,
    pub name: Seq<char>,
    pub arguments: Seq<char>,
}

impl View for WireMessageToolCall {
    type V = MessageCallView;

    open spec fn view(&self) -> MessageCallView {
        MessageCallView { id: self.id@, name: self.name@, arguments: self.arguments@ }
    }
}

/// The text `key` of the function of a complete tool call: empty where the
/// function or the text is missing.
pub open spec fn function_text(j: JsonView, key: Seq<char>) -> Option<Seq<char>> {
    match crate::fields::member(j, "function"@) {
        None => Some(seq![]),
        Some(f) => match crate::fields::record(f, seq!["name"@, "arguments"@], true) {
            Some(o) => crate::fields::str_or_empty_at(o, key),
            None => None,
        },
    }
}

/// Reads a text of the function of a complete tool call.
fn read_function_text(j: &Json, key: &str) -> (r: Option<String>)
    ensures
        crate::text::opt_text(r) == function_text(j@, key@),
{
    match j.get("function") {
        None => {
            let s = String::new();
            assert(s@ =~= seq![]);
            Some(s)
        },
        Some(f) => {
            let names: Vec<&str> = vec!["name", "arguments"];
            assert(crate::fields::names_of(names@) =~= seq!["name"@, "arguments"@]);
            match read_record(f, &names, true) {
                Some(o) => read_str_or_empty(&o, key),
                None => None,
            }
        },
    }
}

impl Record for WireMessageToolCall {
    open spec fn names() -> Seq<Seq<char>> {
        seq!["id"@, "function"@]
    }

    open spec fn of_object(j: JsonView) -> Option<MessageCallView> {
        match (
            crate::fields::str_or_empty_at(j, "id"@),
            function_text(j, "name"@),
            function_text(j, "arguments"@),
        ) {
            (Some(id), Some(name), Some(arguments)) => Some(MessageCallView { id: id, name: name, arguments: arguments }),
            _ => None,
        }
    }

    fn field_names() -> (r: Vec<&'static str>) {
        let r: Vec<&'static str> = vec!["id", "function"];
        assert(crate::fields::names_of(r@) =~= Self::names());
        r
    }

    fn from_object(j: &Json) -> (r: Option<WireMessageToolCall>) {
        match (
            read_str_or_empty(j, "id"),
            read_function_text(j, "name"),
            read_function_text(j, "arguments"),
        ) {
            (Some(id), Some(name), Some(arguments)) => Some(WireMessageToolCall { id, name, arguments }),
            _ => None,
        }
    }
}

/// One choice of an answer that was not streamed.
#[derive(Debug)]
pub struct WireCompletionChoice {
    pub content: Option<String>,
    pub reasoning: Option<String>,
    pub reasoning_content: Option<String>,
    pub tool_calls: Vec<WireMessageToolCall>,
}

/// The content of a [`WireCompletionChoice`].
#[verifier::ext_equal]
pub struct AnswerView {
    pub content: Option<Seq<char>>,
    pub reasoning: Option<Seq<char>>,
    pub reasoning_content: Option<Seq<char>>,
    pub tool_calls: Seq<MessageCallView>,
}

impl View for WireCompletionChoice {
    type V = AnswerView;

    open spec fn view(&self) -> AnswerView {
        AnswerView {
            content: crate::text::opt_text(self.content),
            reasoning: crate::text::opt_text(self.reasoning),
            reasoning_content: crate::text::opt_text(self.reasoning_content),
            tool_calls: crate::fields::views_of(self.tool_calls@),
        }
    }
}

/// An answer without anything.
pub open spec fn empty_answer() -> AnswerView {
    AnswerView { content: None, reasoning: None, reasoning_content: None, tool_calls: seq![] }
}

/// The names of the fields of a message, in their order.
pub open spec fn answer_names() -> Seq<Seq<char>> {
    seq!["content"@, "reasoning"@, "reasoning_content"@, "tool_calls"@]
}

/// The message of a choice.
pub open spec fn answer_of(j: JsonView) -> Option<AnswerView> {
    match crate::fields::record(j, answer_names(), true) {
        Some(m) => match (
            crate::fields::opt_str_at(m, "content"@),
            crate::fields::opt_str_at(m, "reasoning"@),
            crate::fields::opt_str_at(m, "reasoning_content"@),
            crate::fields::list_at::<WireMessageToolCall>(m, "tool_calls"@),
        ) {
            (Some(content), Some(reasoning), Some(thinking), Some(calls)) => Some(
                AnswerView {
                    content: content,
                    reasoning: reasoning,
                    reasoning_content: thinking,
                    tool_calls: calls,
                },
            ),
            _ => None,
        },
        None => None,
    }
}

/// Reads the message of a choice.
fn read_answer(j: &Json) -> (r: Option<WireCompletionChoice>)
    ensures
        crate::fields::opt_view(r) == answer_of(j@),
{
    let names: Vec<&str> = vec!["content", "reasoning", "reasoning_content", "tool_calls"];
    assert(crate::fields::names_of(names@) =~= answer_names());
    let m: Json = match read_record(j, &names, true) {
        Some(m) => m,
        None => {
            return None;
        },
    };
    match (
        read_opt_str(&m, "content"),
        read_opt_str(&m, "reasoning"),
        read_opt_str(&m, "reasoning_content"),
        read_list::<WireMessageToolCall>(&m, "tool_calls"),
    ) {
        (Some(content), Some(reasoning), Some(thinking), Some(calls)) => Some(
            WireCompletionChoice {
                content,
                reasoning,
                reasoning_content: thinking,
                tool_calls: calls,
            },
        ),
        _ => None,
    }
}

impl Record for WireCompletionChoice {
    open spec fn names() -> Seq<Seq<char>> {
        seq!["message"@]
    }

    open spec fn of_object(j: JsonView) -> Option<AnswerView> {
        match crate::fields::member(j, "message"@) {
            None => Some(empty_answer()),
            Some(m) => answer_of(m),
        }
    }

    fn field_names() -> (r: Vec<&'static str>) {
        let r: Vec<&'static str> = vec!["message"];
        assert(crate::fields::names_of(r@) =~= Self::names());
        r
    }

    fn from_object(j: &Json) -> (r: Option<WireCompletionChoice>) {
        match j.get("message") {
            None => {
                let r = WireCompletionChoice {
                    content: None,
                    reasoning: None,
                    reasoning_content: None,
                    tool_calls: Vec::new(),
                };
                assert(r@ =~= empty_answer());
                Some(r)
            },
            Some(m) => read_answer(m),
        }
    }
}

/// An answer that was not streamed.
#[derive(Debug)]
pub struct WireCompletion {
    pub choices: Vec<WireCompletionChoice>,
    pub usage: Option<WireUsage>,
}

/// The content of a [`WireCompletion`].
#[verifier::ext_equal]
pub struct CompletionView {
    pub choices: Seq<AnswerView>,
    pub usage: Option<WireUsage>,
}

impl View for WireCompletion {
    type V = CompletionView;

    open spec fn view(&self) -> CompletionView {
        CompletionView {
            choices: crate::fields::views_of(self.choices@),
            usage: crate::fields::opt_view(self.usage),
        }
    }
}

impl Record for WireCompletion {
    open spec fn names() -> Seq<Seq<char>> {
        seq!["choices"@, "usage"@]
    }

    open spec fn of_object(j: JsonView) -> Option<CompletionView> {
        match (
            crate::fields::list_at::<WireCompletionChoice>(j, "choices"@),
            crate::fields::opt_at::<WireUsage>(j, "usage"@),
        ) {
            (Some(choices), Some(usage)) => Some(CompletionView { choices: choices, usage: usage }),
            _ => None,
        }
    }

    fn field_names() -> (r: Vec<&'static str>) {
        let r: Vec<&'static str> = vec!["choices", "usage"];
        assert(crate::fields::names_of(r@) =~= Self::names());
        r
    }

    fn from_object(j: &Json) -> (r: Option<WireCompletion>) {
        match (read_list::<WireCompletionChoice>(j, "choices"), read_opt::<WireUsage>(j, "usage")) {
            (Some(choices), Some(usage)) => Some(WireCompletion { choices, usage }),
            _ => None,
        }
    }
}

/// What `key` holds in a value that is a record with this one field.
pub open spec fn sole_member(j: JsonView, key: Seq<char>) -> Option<JsonView> {
    match crate::fields::record(j, seq![key], true) {
        Some(o) => crate::fields::member(o, key),
        None => None,
    }
}

/// What a provider says of a failure: the message of its error body, empty where
/// it has none.
pub open spec fn error_detail(j: JsonView) -> Seq<char> {
    match sole_member(j, "error"@) {
        Some(e) => match sole_member(e, "message"@) {
            Some(JsonView::Str(m)) => m,
            _ => seq![],
        },
        None => seq![],
    }
}

/// Reads what `key` holds in a value that is a record with this one field.
fn read_sole_member(j: &Json, key: &str) -> (r: Option<Json>)
    ensures
        crate::fields::opt_view(r) == sole_member(j@, key@),
{
    let names: Vec<&str> = vec![key];
    assert(crate::fields::names_of(names@) =~= seq![key@]);
    match read_record(j, &names, true) {
        Some(o) => match o.get(key) {
            Some(x) => Some(x.copy()),
            None => None,
        },
        None => None,
    }
}

/// What a provider says of a failure.
pub fn read_error_detail(j: &Json) -> (r: String)
    ensures
        r@ == error_detail(j@),
{
    let message: Option<String> = match read_sole_member(j, "error") {
        Some(e) => match read_sole_member(&e, "message") {
            Some(Json::Str(m)) => Some(m),
            _ => None,
        },
        None => None,
    };
    match message {
        Some(m) => m,
        None => {
            let s = String::new();
            assert(s@ =~= seq![]);
            s
        },
    }
}

/// One effort level of a model.
#[derive(Debug)]
pub struct WireEffortLevel {
    pub value: Option<String>,
}

impl View for WireEffortLevel {
    type V = Option<Seq<char>>;

    open spec fn view(&self) -> Option<Seq<char>> {
        crate::text::opt_text(self.value)
    }
}

impl Record for WireEffortLevel {
    open spec fn names() -> Seq<Seq<char>> {
        seq!["value"@]
    }

    open spec fn of_object(j: JsonView) -> Option<Option<Seq<char>>> {
        crate::fields::opt_str_at(j, "value"@)
    }

    fn field_names() -> (r: Vec<&'static str>) {
        let r: Vec<&'static str> = vec!["value"];
        assert(crate::fields::names_of(r@) =~= Self::names());
        r
    }

    fn from_object(j: &Json) -> (r: Option<WireEffortLevel>) {
        match read_opt_str(j, "value") {
            Some(value) => Some(WireEffortLevel { value }),
            None => None,
        }
    }
}

/// What a model list says of a model's reasoning.
#[derive(Debug)]
pub struct WireReasoning {
    pub effort_levels: Vec<WireEffortLevel>,
    pub default_effort_level: Option<String>,
}

/// The content of a [`WireReasoning`].
#[verifier::ext_equal]
pub struct ReasoningView {
    pub effort_levels: Seq<Option<Seq<char>>>,
    pub default_effort_level: Option<Seq<char>>,
}

impl View for WireReasoning {
    type V = ReasoningView;

    open spec fn view(&self) -> ReasoningView {
        ReasoningView {
            effort_levels: crate::fields::views_of(self.effort_levels@),
            default_effort_level: crate::text::opt_text(self.default_effort_level),
        }
    }
}

impl Record for WireReasoning {
    open spec fn names() -> Seq<Seq<char>> {
        seq!["effort_levels"@, "default_effort_level"@]
    }

    open spec fn of_object(j: JsonView) -> Option<ReasoningView> {
        match (
            crate::fields::list_at::<WireEffortLevel>(j, "effort_levels"@),
            crate::fields::opt_str_at(j, "default_effort_level"@),
        ) {
            (Some(levels), Some(default)) => Some(ReasoningView { effort_levels: levels, default_effort_level: default }),
            _ => None,
        }
    }

    fn field_names() -> (r: Vec<&'static str>) {
        let r: Vec<&'static str> = vec!["effort_levels", "default_effort_level"];
        assert(crate::fields::names_of(r@) =~= Self::names());
        r
    }

    fn from_object(j: &Json) -> (r: Option<WireReasoning>) {
        match (
            read_list::<WireEffortLevel>(j, "effort_levels"),
            read_opt_str(j, "default_effort_level"),
        ) {
            (Some(levels), Some(default)) => Some(WireReasoning { effort_levels: levels, default_effort_level: default }),
            _ => None,
        }
    }
}

/// One entry of a provider's model list.
#[derive(Debug)]
pub struct WireModel {
    pub id: Option<String>,
    pub reasoning: Option<WireReasoning>,
}

/// The content of a [`WireModel`].
#[verifier::ext_equal]
pub struct WireModelView {
    pub id: Option<Seq<char>>,
    pub reasoning: Option<ReasoningView>,
}

impl View for WireModel {
    type V = WireModelView;

    open spec fn view(&self) -> WireModelView {
        WireModelView {
            id: crate::text::opt_text(self.id),
            reasoning: crate::fields::opt_view(self.reasoning),
        }
    }
}

impl Record for WireModel {
    open spec fn names() -> Seq<Seq<char>> {
        seq!["id"@, "reasoning"@]
    }

    open spec fn of_object(j: JsonView) -> Option<WireModelView> {
        match (
            crate::fields::opt_str_at(j, "id"@),
            crate::fields::opt_at::<WireReasoning>(j, "reasoning"@),
        ) {
            (Some(id), Some(reasoning)) => Some(WireModelView { id: id, reasoning: reasoning }),
            _ => None,
        }
    }

    fn field_names() -> (r: Vec<&'static str>) {
        let r: Vec<&'static str> = vec!["id", "reasoning"];
        assert(crate::fields::names_of(r@) =~= Self::names());
        r
    }

    fn from_object(j: &Json) -> (r: Option<WireModel>) {
        match (read_opt_str(j, "id"), read_opt::<WireReasoning>(j, "reasoning")) {
            (Some(id), Some(reasoning)) => Some(WireModel { id, reasoning }),
            _ => None,
        }
    }
}

/// The levels that have a value.
pub open spec fn level_values(levels: Seq<Option<Seq<char>>>) -> Seq<Seq<char>>
    decreases levels.len(),
{
    if levels.len() == 0 {
        seq![]
    } else {
        match levels.last() {
            Some(v) => level_values(levels.drop_last()).push(v),
            None => level_values(levels.drop_last()),
        }
    }
}

/// The entry of the library's model list for a model with an id.
pub open spec fn model_entry(id: Seq<char>, reasoning: Option<ReasoningView>) -> ModelInfoView {
    match reasoning {
        Some(r) => ModelInfoView {
            id: id,
            reasoning_effort_levels: level_values(r.effort_levels),
            default_reasoning_effort: crate::llm::types::effort(r.default_effort_level),
        },
        None => crate::llm::types::plain_model(id),
    }
}

/// The entries of the models that have an id.
pub open spec fn model_entries(models: Seq<WireModelView>) -> Seq<ModelInfoView>
    decreases models.len(),
{
    if models.len() == 0 {
        seq![]
    } else {
        match models.last().id {
            Some(id) => model_entries(models.drop_last()).push(
                model_entry(id, models.last().reasoning),
            ),
            None => model_entries(models.drop_last()),
        }
    }
}

/// The models of a provider's list.
pub open spec fn models_of(j: JsonView) -> Option<Seq<ModelInfoView>> {
    match crate::fields::record(j, seq!["data"@], true) {
        Some(o) => match crate::fields::list_at::<WireModel>(o, "data"@) {
            Some(models) => Some(model_entries(models)),
            None => None,
        },
        None => None,
    }
}

/// The levels that have a value.
fn read_levels(levels: &Vec<WireEffortLevel>) -> (r: Vec<String>)
    ensures
        crate::text::texts(r@) == level_values(crate::fields::views_of(levels@)),
{
    let mut out: Vec<String> = Vec::new();
    let mut i: usize = 0;
    let ghost all = crate::fields::views_of(levels@);
    assert(all.take(0) =~= seq![]);
    assert(crate::text::texts(out@) =~= seq![]);
    while i < levels.len()
        invariant
            i <= levels.len(),
            all == crate::fields::views_of(levels@),
            crate::text::texts(out@) == level_values(all.take(i as int)),
        decreases levels.len() - i,
    {
        assert(all.take(i + 1).drop_last() =~= all.take(i as int));
        assert(all.take(i + 1).last() == levels@[i as int]@);
        let ghost before = crate::text::texts(out@);
        if let Some(v) = &levels[i].value {
            let v = v.clone();
            out.push(v);
            assert(crate::text::texts(out@) =~= before.push(v@));
        }
        i = i + 1;
    }
    assert(all.take(i as int) =~= all);
    out
}

/// The content of a model list that was read, or not.
pub open spec fn opt_models(o: Option<Vec<ModelInfo>>) -> Option<Seq<ModelInfoView>> {
    match o {
        Some(v) => Some(crate::llm::types::model_views(v@)),
        None => None,
    }
}

/// The models of a provider's list.
pub fn read_models(j: &Json) -> (r: Option<Vec<ModelInfo>>)
    ensures
        opt_models(r) == models_of(j@),
{
    let names: Vec<&str> = vec!["data"];
    assert(crate::fields::names_of(names@) =~= seq!["data"@]);
    let list: Json = match read_record(j, &names, true) {
        Some(list) => list,
        None => {
            return None;
        },
    };
    let models: Vec<WireModel> = match read_list::<WireModel>(&list, "data") {
        Some(models) => models,
        None => {
            return None;
        },
    };
    let mut out: Vec<ModelInfo> = Vec::new();
    let mut i: usize = 0;
    let ghost all = crate::fields::views_of(models@);
    assert(all.take(0) =~= seq![]);
    assert(crate::llm::types::model_views(out@) =~= seq![]);
    while i < models.len()
        invariant
            i <= models.len(),
            all == crate::fields::views_of(models@),
            crate::llm::types::model_views(out@) == model_entries(all.take(i as int)),
        decreases models.len() - i,
    {
        assert(all.take(i + 1).drop_last() =~= all.take(i as int));
        assert(all.take(i + 1).last() == models@[i as int]@);
        let ghost before = crate::llm::types::model_views(out@);
        if let Some(id) = &models[i].id {
            let mut info = ModelInfo::new(id.as_str());
            if let Some(reasoning) = &models[i].reasoning {
                info.reasoning_effort_levels = read_levels(&reasoning.effort_levels);
                info.default_reasoning_effort = match &reasoning.default_effort_level {
                    Some(e) => if blank(e.as_str()) {
                        None
                    } else {
                        Some(e.clone())
                    },
                    None => None,
                };
            }
            assert(info@ =~= model_entry(id@, models@[i as int]@.reasoning));
            out.push(info);
            assert(crate::llm::types::model_views(out@) =~= before.push(info@));
        }
        i = i + 1;
    }
    assert(all.take(i as int) =~= all);
    Some(out)
}

} // verus!

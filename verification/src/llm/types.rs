//! The request vocabulary: messages, tool calls and chat requests.

use vstd::prelude::*;

use crate::events::{copy_artifacts, Artifact, ArtifactView};
use crate::json::{Json, JsonView};
use crate::text::{blank, copy_opt, copy_strings, same};

verus! {

/// Chat roles.
#[derive(Debug, Clone, Copy, PartialEq, Eq, Structural)]
pub enum Role {
    System,
    User,
    Assistant,
    Tool,
}

/// The name of a role on the wire.
pub open spec fn role_name(r: Role) -> Seq<char> {
    match r {
        Role::System => "system"@,
        Role::User => "user"@,
        Role::Assistant => "assistant"@,
        Role::Tool => "tool"@,
    }
}

/// The role that a name stands for.
pub open spec fn role_named(s: Seq<char>) -> Option<Role> {
    if s == "system"@ {
        Some(Role::System)
    } else if s == "user"@ {
        Some(Role::User)
    } else if s == "assistant"@ {
        Some(Role::Assistant)
    } else if s == "tool"@ {
        Some(Role::Tool)
    } else {
        None
    }
}

/// Every role is found again under its name.
pub proof fn role_names_are_distinct(r: Role)
    ensures
        role_named(role_name(r)) == Some(r),
{
    reveal_strlit("system");
    reveal_strlit("user");
    reveal_strlit("assistant");
    reveal_strlit("tool");
    assert("system"@.len() == 6);
    assert("user"@.len() == 4);
    assert("assistant"@.len() == 9);
    assert("tool"@.len() == 4);
    assert("user"@[0] != "tool"@[0]);
}

impl Role {
    /// The name on the wire.
    pub fn wire_name(self) -> (r: &'static str)
        ensures
            r@ == role_name(self),
    {
        match self {
            Role::System => "system",
            Role::User => "user",
            Role::Assistant => "assistant",
            Role::Tool => "tool",
        }
    }

    /// The role that a name stands for.
    pub fn named(s: &str) -> (r: Option<Role>)
        ensures
            r == role_named(s@),
    {
        if same(s, "system") {
            Some(Role::System)
        } else if same(s, "user") {
            Some(Role::User)
        } else if same(s, "assistant") {
            Some(Role::Assistant)
        } else if same(s, "tool") {
            Some(Role::Tool)
        } else {
            None
        }
    }
}

/// A tool call that the model requested.
#[derive(Debug, PartialEq, Eq)]
pub struct ToolCall {
    pub id: String,
    pub name: String,
    pub arguments: Json,
}

/// The content of a [`ToolCall`].
#[verifier::ext_equal]
pub struct ToolCallView {
    pub id: Seq<char>,
    pub name: Seq<char>,
    pub arguments: JsonView,
}

impl View for ToolCall {
    type V = ToolCallView;

    open spec fn view(&self) -> ToolCallView {
        ToolCallView { id: self.id@, name: self.name@, arguments: self.arguments@ }
    }
}

impl Clone for ToolCall {
    fn clone(&self) -> (r: Self)
        ensures
            r@ == self@,
    {
        ToolCall {
            id: self.id.clone(),
            name: self.name.clone(),
            arguments: self.arguments.copy(),
        }
    }
}

impl ToolCall {
    /// A call of the tool `name`.
    pub fn new(id: &str, name: &str, arguments: Json) -> (r: ToolCall)
        ensures
            r@ == (ToolCallView { id: id@, name: name@, arguments: arguments@ }),
    {
        ToolCall { id: id.to_owned(), name: name.to_owned(), arguments }
    }
}

/// The contents of a list of tool calls.
pub open spec fn call_views(v: Seq<ToolCall>) -> Seq<ToolCallView> {
    v.map_values(|c: ToolCall| c@)
}

/// The contents of an optional list of tool calls.
pub open spec fn opt_call_views(o: Option<Vec<ToolCall>>) -> Option<Seq<ToolCallView>> {
    match o {
        Some(v) => Some(call_views(v@)),
        None => None,
    }
}

/// A copy of a list of tool calls.
pub fn copy_calls(v: &Vec<ToolCall>) -> (r: Vec<ToolCall>)
    ensures
        call_views(r@) == call_views(v@),
{
    let mut out: Vec<ToolCall> = Vec::new();
    let mut i: usize = 0;
    while i < v.len()
        invariant
            i <= v.len(),
            out@.len() == i,
            forall|k: int| 0 <= k < i ==> (#[trigger] out@[k])@ == v@[k]@,
        decreases v.len() - i,
    {
        out.push(v[i].clone());
        i = i + 1;
    }
    assert(call_views(out@) =~= call_views(v@));
    out
}

/// One message of a conversation.
#[derive(Debug, PartialEq, Eq)]
pub struct ChatMessage {
    pub role: Role,
    pub content: String,
    /// Model thinking of an assistant turn. Never sent back to the provider.
    pub reasoning: Option<String>,
    /// Tool calls that the assistant requested.
    pub tool_calls: Option<Vec<ToolCall>>,
    /// Which tool call this message answers.
    pub tool_call_id: Option<String>,
    /// Workspace files attached to this message. Never sent to the provider.
    pub artifacts: Vec<Artifact>,
}

/// The content of a [`ChatMessage`].
#[verifier::ext_equal]
pub struct ChatMessageView {
    pub role: Role,
    pub content: Seq<char>,
    pub reasoning: Option<Seq<char>>,
    pub tool_calls: Option<Seq<ToolCallView>>,
    pub tool_call_id: Option<Seq<char>>,
    pub artifacts: Seq<ArtifactView>,
}

impl View for ChatMessage {
    type V = ChatMessageView;

    open spec fn view(&self) -> ChatMessageView {
        ChatMessageView {
            role: self.role,
            content: self.content@,
            reasoning: crate::text::opt_text(self.reasoning),
            tool_calls: opt_call_views(self.tool_calls),
            tool_call_id: crate::text::opt_text(self.tool_call_id),
            artifacts: crate::events::artifact_views(self.artifacts@),
        }
    }
}

impl Clone for ChatMessage {
    fn clone(&self) -> (r: Self)
        ensures
            r@ == self@,
    {
        let calls: Option<Vec<ToolCall>> = match &self.tool_calls {
            Some(v) => Some(copy_calls(v)),
            None => None,
        };
        ChatMessage {
            role: self.role,
            content: self.content.clone(),
            reasoning: copy_opt(&self.reasoning),
            tool_calls: calls,
            tool_call_id: copy_opt(&self.tool_call_id),
            artifacts: copy_artifacts(&self.artifacts),
        }
    }
}

/// The plain message of a role.
pub open spec fn message(role: Role, content: Seq<char>) -> ChatMessageView {
    ChatMessageView {
        role: role,
        content: content,
        reasoning: None,
        tool_calls: None,
        tool_call_id: None,
        artifacts: Seq::empty(),
    }
}

/// The contents of a list of messages.
pub open spec fn message_views(v: Seq<ChatMessage>) -> Seq<ChatMessageView> {
    v.map_values(|m: ChatMessage| m@)
}

/// A copy of a list of messages.
pub fn copy_messages(v: &Vec<ChatMessage>) -> (r: Vec<ChatMessage>)
    ensures
        message_views(r@) == message_views(v@),
{
    let mut out: Vec<ChatMessage> = Vec::new();
    let mut i: usize = 0;
    while i < v.len()
        invariant
            i <= v.len(),
            out@.len() == i,
            forall|k: int| 0 <= k < i ==> (#[trigger] out@[k])@ == v@[k]@,
        decreases v.len() - i,
    {
        out.push(v[i].clone());
        i = i + 1;
    }
    assert(message_views(out@) =~= message_views(v@));
    out
}

impl ChatMessage {
    /// A plain message.
    pub fn new(role: Role, content: &str) -> (r: ChatMessage)
        ensures
            r@ == message(role, content@),
    {
        let r = ChatMessage {
            role,
            content: content.to_owned(),
            reasoning: None,
            tool_calls: None,
            tool_call_id: None,
            artifacts: Vec::new(),
        };
        assert(r@.artifacts =~= Seq::<ArtifactView>::empty());
        r
    }

    /// Attaches model thinking.
    pub fn with_reasoning(self, reasoning: &str) -> (r: ChatMessage)
        ensures
            r@ == (ChatMessageView { reasoning: Some(reasoning@), ..self@ }),
    {
        let mut message = self;
        message.reasoning = Some(reasoning.to_owned());
        message
    }

    /// Attaches workspace files.
    pub fn with_artifacts(self, artifacts: Vec<Artifact>) -> (r: ChatMessage)
        ensures
            r@ == (ChatMessageView {
                artifacts: crate::events::artifact_views(artifacts@),
                ..self@
            }),
    {
        let mut message = self;
        message.artifacts = artifacts;
        message
    }

    /// An assistant message that requested tool calls.
    pub fn assistant_with_tool_calls(content: &str, tool_calls: Vec<ToolCall>) -> (r: ChatMessage)
        ensures
            r@ == (ChatMessageView {
                tool_calls: Some(call_views(tool_calls@)),
                ..message(Role::Assistant, content@)
            }),
    {
        let mut message = ChatMessage::new(Role::Assistant, content);
        message.tool_calls = Some(tool_calls);
        message
    }

    /// A result message that answers the call `tool_call_id`.
    pub fn tool(tool_call_id: &str, content: &str) -> (r: ChatMessage)
        ensures
            r@ == (ChatMessageView {
                tool_call_id: Some(tool_call_id@),
                ..message(Role::Tool, content@)
            }),
    {
        let mut message = ChatMessage::new(Role::Tool, content);
        message.tool_call_id = Some(tool_call_id.to_owned());
        message
    }

    /// A system message.
    pub fn system(content: &str) -> (r: ChatMessage)
        ensures
            r@ == message(Role::System, content@),
    {
        ChatMessage::new(Role::System, content)
    }

    /// A user message.
    pub fn user(content: &str) -> (r: ChatMessage)
        ensures
            r@ == message(Role::User, content@),
    {
        ChatMessage::new(Role::User, content)
    }

    /// An assistant message.
    pub fn assistant(content: &str) -> (r: ChatMessage)
        ensures
            r@ == message(Role::Assistant, content@),
    {
        ChatMessage::new(Role::Assistant, content)
    }
}

/// A turn request.
#[derive(Debug, PartialEq, Eq)]
pub struct ChatRequest {
    pub model: String,
    pub messages: Vec<ChatMessage>,
    /// Reasoning effort; `None` leaves it to the provider.
    pub reasoning_effort: Option<String>,
    /// The tools the model may call.
    pub tools: Vec<Json>,
    /// Output cap in tokens.
    pub max_tokens: Option<u32>,
}

/// The content of a [`ChatRequest`].
#[verifier::ext_equal]
pub struct ChatRequestView {
    pub model: Seq<char>,
    pub messages: Seq<ChatMessageView>,
    pub reasoning_effort: Option<Seq<char>>,
    pub tools: Seq<JsonView>,
    pub max_tokens: Option<u32>,
}

impl View for ChatRequest {
    type V = ChatRequestView;

    open spec fn view(&self) -> ChatRequestView {
        ChatRequestView {
            model: self.model@,
            messages: message_views(self.messages@),
            reasoning_effort: crate::text::opt_text(self.reasoning_effort),
            tools: crate::json::views(self.tools@),
            max_tokens: self.max_tokens,
        }
    }
}

/// A request with a model and messages only.
pub open spec fn request(model: Seq<char>, messages: Seq<ChatMessageView>) -> ChatRequestView {
    ChatRequestView {
        model: model,
        messages: messages,
        reasoning_effort: None,
        tools: Seq::empty(),
        max_tokens: None,
    }
}

/// A reasoning effort, without a blank one.
pub open spec fn effort(o: Option<Seq<char>>) -> Option<Seq<char>> {
    match o {
        Some(e) => if crate::text::trim(e).len() == 0 {
            None
        } else {
            Some(e)
        },
        None => None,
    }
}

/// A cap, without one of 0.
pub open spec fn cap(o: Option<u32>) -> Option<u32> {
    match o {
        Some(n) => if n > 0 {
            Some(n)
        } else {
            None
        },
        None => None,
    }
}

impl ChatRequest {
    /// A request with a model and messages only.
    pub fn new(model: &str, messages: Vec<ChatMessage>) -> (r: ChatRequest)
        ensures
            r@ == request(model@, message_views(messages@)),
    {
        let r = ChatRequest {
            model: model.to_owned(),
            messages,
            reasoning_effort: None,
            tools: Vec::new(),
            max_tokens: None,
        };
        assert(r@.tools =~= Seq::<JsonView>::empty());
        r
    }

    /// Requests a reasoning effort; a blank one is ignored.
    pub fn with_reasoning_effort(self, level: Option<String>) -> (r: ChatRequest)
        ensures
            r@ == (ChatRequestView {
                reasoning_effort: effort(crate::text::opt_text(level)),
                ..self@
            }),
    {
        let mut request = self;
        request.reasoning_effort = match level {
            Some(e) => if blank(e.as_str()) {
                None
            } else {
                Some(e)
            },
            None => None,
        };
        request
    }

    /// Advertises tools.
    pub fn with_tools(self, tools: Vec<Json>) -> (r: ChatRequest)
        ensures
            r@ == (ChatRequestView { tools: crate::json::views(tools@), ..self@ }),
    {
        let mut request = self;
        request.tools = tools;
        request
    }

    /// Caps the provider's output; a cap of 0 is ignored.
    pub fn with_max_tokens(self, max_tokens: Option<u32>) -> (r: ChatRequest)
        ensures
            r@ == (ChatRequestView { max_tokens: cap(max_tokens), ..self@ }),
    {
        let mut request = self;
        request.max_tokens = match max_tokens {
            Some(n) => if n > 0 {
                Some(n)
            } else {
                None
            },
            None => None,
        };
        request
    }
}

/// One entry of the provider's model list.
#[derive(Debug, PartialEq, Eq)]
pub struct ModelInfo {
    pub id: String,
    pub reasoning_effort_levels: Vec<String>,
    pub default_reasoning_effort: Option<String>,
}

/// The content of a [`ModelInfo`].
#[verifier::ext_equal]
pub struct ModelInfoView {
    pub id: Seq<char>,
    pub reasoning_effort_levels: Seq<Seq<char>>,
    pub default_reasoning_effort: Option<Seq<char>>,
}

impl View for ModelInfo {
    type V = ModelInfoView;

    open spec fn view(&self) -> ModelInfoView {
        ModelInfoView {
            id: self.id@,
            reasoning_effort_levels: crate::text::texts(self.reasoning_effort_levels@),
            default_reasoning_effort: crate::text::opt_text(self.default_reasoning_effort),
        }
    }
}

impl Clone for ModelInfo {
    fn clone(&self) -> (r: Self)
        ensures
            r@ == self@,
    {
        ModelInfo {
            id: self.id.clone(),
            reasoning_effort_levels: copy_strings(&self.reasoning_effort_levels),
            default_reasoning_effort: copy_opt(&self.default_reasoning_effort),
        }
    }
}

/// A model of which only the id is known.
pub open spec fn plain_model(id: Seq<char>) -> ModelInfoView {
    ModelInfoView {
        id: id,
        reasoning_effort_levels: Seq::empty(),
        default_reasoning_effort: None,
    }
}

/// The contents of a list of models.
pub open spec fn model_views(v: Seq<ModelInfo>) -> Seq<ModelInfoView> {
    v.map_values(|m: ModelInfo| m@)
}

impl ModelInfo {
    /// A model of which only the id is known.
    pub fn new(id: &str) -> (r: ModelInfo)
        ensures
            r@ == plain_model(id@),
    {
        let r = ModelInfo {
            id: id.to_owned(),
            reasoning_effort_levels: Vec::new(),
            default_reasoning_effort: None,
        };
        assert(r@.reasoning_effort_levels =~= Seq::<Seq<char>>::empty());
        r
    }
}

} // verus!

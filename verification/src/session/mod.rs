//! A chat session: one conversation with at most one turn in progress. Turns
//! end by completion or by abort; what they brought goes into the history once.

use vstd::prelude::*;

use crate::agent::turn_loop::{assistant_message, LoopResult, LoopResultView, TurnOutcome};
use crate::config::{Config, ConfigView};
use crate::context::ContextPolicy;
use crate::conversations::{
    Conversation, ConversationStore, ConversationView, Loaded, StoredMessage,
    CONVERSATION_SCHEMA_VERSION,
};
use crate::error::{ApiError, ApiErrorKind, ApiErrorView};
use crate::events::{
    copy_artifacts, ApprovalKind, Artifact, ArtifactView, CoreEvent, CoreEventView, Decision,
    EventStream, TurnBuffer, Usage, TURN_BUFFER_CAPACITY,
};
use crate::llm::types::{copy_messages, ChatMessage, ChatMessageView, Role};
use crate::session::approvals::{ApprovalsView, SessionApprovals};
use crate::session::turn::{find_last_user, TurnTask, TurnTaskView};
use crate::text::{blank, clip, copy_opt, empty, lines, quote, trimmed};

pub mod approvals;
pub mod laws;
pub mod registry;
pub mod turn;
pub mod turn_laws;

verus! {

/// The longest title taken from a message, in characters.
pub const TITLE_MAX_CHARS: usize = 60;

/// The turn in progress.
#[derive(Debug)]
struct ActiveTurn {
    turn_id: u64,
    /// What the assistant has said so far.
    partial: String,
    /// What the model has thought so far.
    reasoning: String,
    /// The workspace files that the turn's tools produced.
    artifacts: Vec<Artifact>,
    /// The events a reconnecting subscriber gets first.
    buffer: TurnBuffer,
    approvals: SessionApprovals,
}

/// The content of the turn in progress.
#[verifier::ext_equal]
pub struct ActiveView {
    pub turn_id: u64,
    pub partial: Seq<char>,
    pub reasoning: Seq<char>,
    pub artifacts: Seq<ArtifactView>,
    pub buffer: Seq<CoreEventView>,
    pub approvals: ApprovalsView,
}

impl View for ActiveTurn {
    type V = ActiveView;

    closed spec fn view(&self) -> ActiveView {
        ActiveView {
            turn_id: self.turn_id,
            partial: self.partial@,
            reasoning: self.reasoning@,
            artifacts: crate::events::artifact_views(self.artifacts@),
            buffer: self.buffer@,
            approvals: self.approvals@,
        }
    }
}

/// A conversation with at most one turn in progress.
#[derive(Debug)]
pub struct ChatSession {
    conversation_id: String,
    history: Vec<ChatMessage>,
    summary: Option<String>,
    accumulated_usage: Usage,
    title: Option<String>,
    created_at: String,
    updated_at: String,
    model_override: Option<String>,
    reasoning_effort_override: Option<String>,
    next_turn_id: u64,
    active: Option<ActiveTurn>,
    store: Option<ConversationStore>,
}

/// The content of a [`ChatSession`].
#[verifier::ext_equal]
pub struct SessionView {
    pub id: Seq<char>,
    pub history: Seq<ChatMessageView>,
    /// Summary of the turns that fell out of the window.
    pub summary: Option<Seq<char>>,
    /// Usage over all turns.
    pub usage: Usage,
    pub title: Option<Seq<char>>,
    pub created_at: Seq<char>,
    pub updated_at: Seq<char>,
    pub model_override: Option<Seq<char>>,
    pub effort_override: Option<Seq<char>>,
    pub next_turn_id: u64,
    pub active: Option<ActiveView>,
    /// The directory of the store; none for a session that is not kept.
    pub store: Option<Seq<char>>,
}

impl View for ChatSession {
    type V = SessionView;

    closed spec fn view(&self) -> SessionView {
        SessionView {
            id: self.conversation_id@,
            history: crate::llm::types::message_views(self.history@),
            summary: crate::text::opt_text(self.summary),
            usage: self.accumulated_usage,
            title: crate::text::opt_text(self.title),
            created_at: self.created_at@,
            updated_at: self.updated_at@,
            model_override: crate::text::opt_text(self.model_override),
            effort_override: crate::text::opt_text(self.reasoning_effort_override),
            next_turn_id: self.next_turn_id,
            active: crate::fields::opt_view(self.active),
            store: crate::fields::opt_view(self.store),
        }
    }
}

/// A session that has just been opened, with what was stored of it.
pub open spec fn opened(
    id: Seq<char>,
    now: Seq<char>,
    store: Option<Seq<char>>,
    stored: Option<ConversationView>,
) -> SessionView {
    let fresh = SessionView {
        id: id,
        history: Seq::empty(),
        summary: None,
        usage: crate::events::no_usage(),
        title: None,
        created_at: now,
        updated_at: now,
        model_override: None,
        effort_override: None,
        next_turn_id: 1,
        active: None,
        store: store,
    };
    match stored {
        None => fresh,
        Some(c) => SessionView {
            history: c.messages,
            summary: c.summary,
            usage: c.usage,
            title: c.title,
            created_at: c.created_at,
            updated_at: if c.updated_at.len() == 0 {
                now
            } else {
                c.updated_at
            },
            ..fresh
        },
    }
}

/// The conversation that a load found.
pub open spec fn found(r: Result<Loaded, ApiError>) -> Option<ConversationView> {
    match r {
        Ok(Loaded::Found(c)) => Some(c@),
        _ => None,
    }
}

/// The model of the next turn.
pub open spec fn turn_model(s: SessionView, c: ConfigView) -> Seq<char> {
    match s.model_override {
        Some(m) => m,
        None => c.provider.model,
    }
}

/// The reasoning effort of the next turn.
pub open spec fn turn_effort(s: SessionView, c: ConfigView) -> Option<Seq<char>> {
    match s.effort_override {
        Some(e) => Some(e),
        None => crate::config::sections::trimmed_some(c.provider.reasoning_effort),
    }
}

/// The first line of a text.
pub open spec fn first_line(s: Seq<char>) -> Seq<char> {
    if crate::text::line_seq(s).len() == 0 {
        Seq::empty()
    } else {
        crate::text::line_seq(s)[0]
    }
}

/// The title that a message gives its conversation.
pub open spec fn title_from(message: Seq<char>) -> Seq<char> {
    let title = crate::text::clip_text(
        crate::text::trim(first_line(message)),
        TITLE_MAX_CHARS as int,
    );
    if title.len() == 0 {
        "untitled"@
    } else {
        title
    }
}

/// A turn that has just begun.
pub open spec fn fresh_turn(turn_id: u64) -> ActiveView {
    ActiveView {
        turn_id: turn_id,
        partial: Seq::empty(),
        reasoning: Seq::empty(),
        artifacts: Seq::empty(),
        buffer: Seq::empty(),
        approvals: crate::session::approvals::no_approvals(),
    }
}

/// The user message with attached files.
pub open spec fn question(message: Seq<char>, attachments: Seq<ArtifactView>) -> ChatMessageView {
    ChatMessageView {
        artifacts: attachments,
        ..crate::llm::types::message(Role::User, message)
    }
}

/// The session after a message was sent.
pub open spec fn sent(s: SessionView, message: Seq<char>, attachments: Seq<ArtifactView>) -> SessionView {
    SessionView {
        history: s.history.push(question(message, attachments)),
        title: match s.title {
            Some(t) => Some(t),
            None => Some(title_from(message)),
        },
        next_turn_id: (s.next_turn_id + 1) as u64,
        active: Some(fresh_turn(s.next_turn_id)),
        ..s
    }
}

/// What the turn that sends a message starts from.
pub open spec fn task_of(
    s: SessionView,
    c: ConfigView,
    message: Seq<char>,
    attachments: Seq<ArtifactView>,
) -> TurnTaskView {
    TurnTaskView {
        turn_id: s.next_turn_id,
        model: turn_model(s, c),
        reasoning_effort: turn_effort(s, c),
        history: s.history.push(question(message, attachments)),
        summary: s.summary,
        policy: ContextPolicy { max_prompt_tokens: c.context.max_prompt_tokens },
    }
}

/// A message may not be blank.
pub open spec fn blank_error() -> ApiErrorView {
    crate::error::failure(ApiErrorKind::Config, "message must not be empty"@)
}

/// Only one turn may be in progress.
pub open spec fn busy_error() -> ApiErrorView {
    crate::error::failure(ApiErrorKind::Busy, "a turn is already in progress; abort it first"@)
}

/// There is no answer to replace.
pub open spec fn nothing_error() -> ApiErrorView {
    crate::error::failure(ApiErrorKind::Config, "nothing to regenerate"@)
}

/// The content of what a send gives.
pub open spec fn task_view(r: Result<TurnTask, ApiError>) -> Result<TurnTaskView, ApiErrorView> {
    match r {
        Ok(t) => Ok(t@),
        Err(e) => Err(e@),
    }
}

/// What sending a message gives, and the session after it.
pub open spec fn send_outcome(
    s: SessionView,
    c: ConfigView,
    message: Seq<char>,
    attachments: Seq<ArtifactView>,
) -> (Result<TurnTaskView, ApiErrorView>, SessionView) {
    if crate::text::trim(message).len() == 0 {
        (Err(blank_error()), s)
    } else if s.active is Some {
        (Err(busy_error()), s)
    } else {
        (Ok(task_of(s, c, message, attachments)), sent(s, message, attachments))
    }
}

/// The session without the answer to its last question, and without the
/// question.
pub open spec fn rewound(s: SessionView) -> SessionView {
    SessionView { history: s.history.take(crate::session::turn::last_user(s.history)), ..s }
}

/// What asking the last question again gives, and the session after it.
pub open spec fn regenerate_outcome(s: SessionView, c: ConfigView) -> (
    Result<TurnTaskView, ApiErrorView>,
    SessionView,
) {
    let u = crate::session::turn::last_user(s.history);
    if s.active is Some {
        (Err(busy_error()), s)
    } else if u < 0 || u + 1 >= s.history.len() {
        (Err(nothing_error()), s)
    } else {
        send_outcome(rewound(s), c, s.history[u].content, s.history[u].artifacts)
    }
}

/// Whether the turn in progress is the one with an id.
pub open spec fn is_current(s: SessionView, turn_id: u64) -> bool {
    match s.active {
        Some(a) => a.turn_id == turn_id,
        None => false,
    }
}

/// Whether an abort has a turn to stop: any, or only the one with an id.
pub open spec fn is_target(s: SessionView, only: Option<u64>) -> bool {
    match only {
        Some(id) => is_current(s, id),
        None => s.active is Some,
    }
}

/// What is kept of a turn that did not finish its answer.
pub open spec fn partial_answer(a: ActiveView) -> ChatMessageView {
    ChatMessageView {
        artifacts: a.artifacts,
        ..crate::agent::turn_loop::answer(a.partial, a.reasoning)
    }
}

/// The session after its turn was aborted.
pub open spec fn aborted(s: SessionView) -> SessionView {
    match s.active {
        Some(a) => SessionView {
            history: if a.partial.len() == 0 {
                s.history
            } else {
                s.history.push(partial_answer(a))
            },
            active: None,
            ..s
        },
        None => s,
    }
}

/// The place of the last plain answer; -1 where there is none.
pub open spec fn last_plain(m: Seq<ChatMessageView>) -> int
    decreases m.len(),
{
    if m.len() == 0 {
        -1
    } else if m.last().role == Role::Assistant && m.last().tool_calls is None {
        m.len() - 1
    } else {
        last_plain(m.drop_last())
    }
}

/// The messages of a turn, with its files on the last plain answer.
pub open spec fn with_files(
    m: Seq<ChatMessageView>,
    artifacts: Seq<ArtifactView>,
) -> Seq<ChatMessageView> {
    if artifacts.len() == 0 || last_plain(m) < 0 {
        m
    } else {
        m.update(last_plain(m), ChatMessageView { artifacts: artifacts, ..m[last_plain(m)] })
    }
}

/// The history after a turn is over. A turn that produced no message leaves
/// what it had said; one that failed without a word takes its question back.
pub open spec fn history_after(
    h: Seq<ChatMessageView>,
    a: ActiveView,
    r: LoopResultView,
) -> Seq<ChatMessageView> {
    if r.new_messages.len() > 0 {
        h + with_files(r.new_messages, a.artifacts)
    } else if a.partial.len() > 0 {
        h.push(partial_answer(a))
    } else if r.outcome == TurnOutcome::Failed && h.len() > 0 && h.last().role == Role::User {
        h.drop_last()
    } else {
        h
    }
}

/// The session after the turn with an id is over.
pub open spec fn finalized(s: SessionView, turn_id: u64, r: LoopResultView) -> SessionView {
    match s.active {
        Some(a) => if a.turn_id == turn_id {
            SessionView {
                usage: match r.usage {
                    Some(u) => crate::events::usage_sum(s.usage, u),
                    None => s.usage,
                },
                history: history_after(s.history, a, r),
                active: None,
                ..s
            }
        } else {
            s
        },
        None => s,
    }
}

/// The turn after one of its events: what is said and thought adds up, and the
/// event can be replayed.
pub open spec fn noted(a: ActiveView, e: CoreEventView) -> ActiveView {
    ActiveView {
        partial: match e {
            CoreEventView::Delta { text } => a.partial + text,
            _ => a.partial,
        },
        reasoning: match e {
            CoreEventView::Reasoning { text } => a.reasoning + text,
            _ => a.reasoning,
        },
        buffer: crate::events::newest(a.buffer.push(e), TURN_BUFFER_CAPACITY as int),
        ..a
    }
}

/// The session after an event of the turn with an id.
pub open spec fn with_event(s: SessionView, turn_id: u64, e: CoreEventView) -> SessionView {
    if is_current(s, turn_id) {
        SessionView { active: Some(noted(s.active->Some_0, e)), ..s }
    } else {
        s
    }
}

/// The event that shows a file.
pub open spec fn file_event(a: ArtifactView) -> CoreEventView {
    CoreEventView::Artifact { path: a.path, mime_hint: a.mime_hint }
}

/// The session after the turn with an id produced a file.
pub open spec fn with_file(s: SessionView, turn_id: u64, f: ArtifactView) -> SessionView {
    if is_current(s, turn_id) {
        let a = s.active->Some_0;
        SessionView {
            active: Some(
                noted(ActiveView { artifacts: a.artifacts.push(f), ..a }, file_event(f)),
            ),
            ..s
        }
    } else {
        s
    }
}

/// The session as it is stored.
pub open spec fn conversation_of(s: SessionView) -> ConversationView {
    ConversationView {
        schema: CONVERSATION_SCHEMA_VERSION,
        id: s.id,
        title: s.title,
        created_at: s.created_at,
        updated_at: s.updated_at,
        summary: s.summary,
        messages: s.history,
        usage: s.usage,
    }
}

/// What a session keeps up: its turn in progress was numbered before the next.
pub open spec fn session_inv(s: SessionView) -> bool {
    s.active matches Some(a) ==> a.turn_id < s.next_turn_id
}

/// The title that a message gives its conversation.
pub fn derive_title(message: &str) -> (r: String)
    ensures
        r@ == title_from(message@),
{
    let all = lines(message);
    let ghost views = crate::text::texts(all@);
    let first: String = if all.len() == 0 {
        String::new()
    } else {
        assert(views[0] == all@[0]@);
        all[0].clone()
    };
    assert(first@ =~= first_line(message@));
    let title = clip(trimmed(first.as_str()).as_str(), TITLE_MAX_CHARS);
    if empty(title.as_str()) {
        "untitled".to_owned()
    } else {
        title
    }
}

/// Puts the files of a turn on its last plain answer; the messages that call
/// tools never carry any.
pub fn attach_artifacts(messages: &mut Vec<ChatMessage>, artifacts: Vec<Artifact>)
    ensures
        crate::llm::types::message_views(final(messages)@) == with_files(
            crate::llm::types::message_views(old(messages)@),
            crate::events::artifact_views(artifacts@),
        ),
{
    let ghost m = crate::llm::types::message_views(messages@);
    let ghost f = crate::events::artifact_views(artifacts@);
    if artifacts.len() == 0 {
        return;
    }
    let mut i: usize = messages.len();
    assert(m.take(i as int) =~= m);
    while i > 0
        invariant
            i <= messages@.len(),
            m == crate::llm::types::message_views(messages@),
            last_plain(m) == last_plain(m.take(i as int)),
        ensures
            i == 0 ==> last_plain(m) < 0,
            i > 0 ==> last_plain(m) == i - 1 && i <= messages@.len(),
            m == crate::llm::types::message_views(messages@),
        decreases i,
    {
        assert(m.take(i as int).last() == m[i - 1]);
        assert(m.take(i as int).drop_last() =~= m.take(i - 1));
        if messages[i - 1].role == Role::Assistant && messages[i - 1].tool_calls.is_none() {
            break;
        }
        i = i - 1;
    }
    if i > 0 {
        let message = messages[i - 1].clone().with_artifacts(artifacts);
        messages.set(i - 1, message);
        assert(crate::llm::types::message_views(messages@) =~= with_files(m, f));
    }
}

impl ChatSession {
    /// A session that is not kept.
    pub fn new(conversation_id: &str, now: &str) -> (r: ChatSession)
        ensures
            r@ == opened(conversation_id@, now@, None, None),
            session_inv(r@),
    {
        ChatSession::build(conversation_id, None, None, now)
    }

    /// A session that is kept in a store, given what loading it brought. What
    /// cannot be loaded starts empty.
    pub fn with_store(
        conversation_id: &str,
        store: ConversationStore,
        loaded: Result<Loaded, ApiError>,
        now: &str,
    ) -> (r: ChatSession)
        ensures
            r@ == opened(conversation_id@, now@, Some(store@), found(loaded)),
            session_inv(r@),
    {
        let stored: Option<Conversation> = match loaded {
            Ok(Loaded::Found(c)) => Some(c),
            _ => None,
        };
        ChatSession::build(conversation_id, Some(store), stored, now)
    }

    fn build(
        conversation_id: &str,
        store: Option<ConversationStore>,
        stored: Option<Conversation>,
        now: &str,
    ) -> (r: ChatSession)
        ensures
            r@ == opened(
                conversation_id@,
                now@,
                crate::fields::opt_view(store),
                crate::fields::opt_view(stored),
            ),
    {
        let mut s = ChatSession {
            conversation_id: conversation_id.to_owned(),
            history: Vec::new(),
            summary: None,
            accumulated_usage: Usage {
                input_tokens: None,
                output_tokens: None,
                total_tokens: None,
            },
            title: None,
            created_at: now.to_owned(),
            updated_at: now.to_owned(),
            model_override: None,
            reasoning_effort_override: None,
            next_turn_id: 1,
            active: None,
            store,
        };
        assert(s@.history =~= Seq::<ChatMessageView>::empty());
        if let Some(c) = stored {
            s.history = chat_messages(&c.messages);
            s.summary = c.summary;
            s.accumulated_usage = c.usage;
            s.title = c.title;
            s.created_at = c.created_at;
            if !empty(c.updated_at.as_str()) {
                s.updated_at = c.updated_at;
            }
        }
        s
    }

    /// The id of the conversation.
    pub fn conversation_id(&self) -> (r: String)
        ensures
            r@ == self@.id,
    {
        self.conversation_id.clone()
    }

    /// The title; none before the first turn.
    pub fn title(&self) -> (r: Option<String>)
        ensures
            crate::text::opt_text(r) == self@.title,
    {
        copy_opt(&self.title)
    }

    /// Sets or clears the title. A message does not replace one that is set.
    pub fn set_title(&mut self, title: Option<String>)
        ensures
            final(self)@ == (SessionView { title: crate::text::opt_text(title), ..old(self)@ }),
    {
        self.title = title;
    }

    /// The model of the next turn: the conversation's own, else the configured.
    pub fn current_model(&self, config: &Config) -> (r: String)
        ensures
            r@ == turn_model(self@, config@),
    {
        match &self.model_override {
            Some(m) => m.clone(),
            None => config.provider.model.clone(),
        }
    }

    /// Sets or clears the conversation's own model.
    pub fn set_model(&mut self, model: Option<String>)
        ensures
            final(self)@ == (SessionView {
                model_override: crate::text::opt_text(model),
                ..old(self)@
            }),
    {
        self.model_override = model;
    }

    /// The reasoning effort of the next turn: the conversation's own, else the
    /// configured, else the provider's.
    pub fn current_reasoning_effort(&self, config: &Config) -> (r: Option<String>)
        ensures
            crate::text::opt_text(r) == turn_effort(self@, config@),
    {
        match &self.reasoning_effort_override {
            Some(e) => Some(e.clone()),
            None => config.provider.reasoning_effort(),
        }
    }

    /// Sets or clears the conversation's own reasoning effort.
    pub fn set_reasoning_effort(&mut self, effort: Option<String>)
        ensures
            final(self)@ == (SessionView {
                effort_override: crate::text::opt_text(effort),
                ..old(self)@
            }),
    {
        self.reasoning_effort_override = effort;
    }

    /// The history: the recent window, once older turns went into the summary.
    pub fn history(&self) -> (r: Vec<ChatMessage>)
        ensures
            crate::llm::types::message_views(r@) == self@.history,
    {
        copy_messages(&self.history)
    }

    /// Summary of the turns that fell out of the window.
    pub fn summary(&self) -> (r: Option<String>)
        ensures
            crate::text::opt_text(r) == self@.summary,
    {
        copy_opt(&self.summary)
    }

    /// Usage over all turns, summary calls among them.
    pub fn total_usage(&self) -> (r: Usage)
        ensures
            r == self@.usage,
    {
        self.accumulated_usage
    }

    /// Whether a turn is in progress.
    pub fn is_active(&self) -> (r: bool)
        ensures
            r == (self@.active is Some),
    {
        self.active.is_some()
    }

    /// Whether the turn with an id is in progress.
    pub fn is_turn(&self, turn_id: u64) -> (r: bool)
        ensures
            r == is_current(self@, turn_id),
    {
        match &self.active {
            Some(a) => a.turn_id == turn_id,
            None => false,
        }
    }

    /// Whether another turn can be numbered.
    pub fn can_number_turn(&self) -> (r: bool)
        ensures
            r == (self@.next_turn_id < u64::MAX),
    {
        self.next_turn_id < u64::MAX
    }

    /// Sends a user message and starts a turn.
    pub fn send(&mut self, message: &str, config: &Config) -> (r: Result<TurnTask, ApiError>)
        requires
            old(self)@.next_turn_id < u64::MAX,
        ensures
            (task_view(r), final(self)@) == send_outcome(
                old(self)@,
                config@,
                message@,
                Seq::empty(),
            ),
            session_inv(old(self)@) ==> session_inv(final(self)@),
    {
        let none: Vec<Artifact> = Vec::new();
        assert(crate::events::artifact_views(none@) =~= Seq::<ArtifactView>::empty());
        self.send_with_attachments(message, none, config)
    }

    /// Sends a user message with workspace files and starts a turn.
    pub fn send_with_attachments(
        &mut self,
        message: &str,
        attachments: Vec<Artifact>,
        config: &Config,
    ) -> (r: Result<TurnTask, ApiError>)
        requires
            old(self)@.next_turn_id < u64::MAX,
        ensures
            (task_view(r), final(self)@) == send_outcome(
                old(self)@,
                config@,
                message@,
                crate::events::artifact_views(attachments@),
            ),
            session_inv(old(self)@) ==> session_inv(final(self)@),
    {
        if blank(message) {
            return Err(ApiError::config("message must not be empty"));
        }
        if self.active.is_some() {
            return Err(
                ApiError::new(
                    ApiErrorKind::Busy,
                    "a turn is already in progress; abort it first",
                ),
            );
        }
        let ghost files = crate::events::artifact_views(attachments@);
        let model = self.current_model(config);
        let reasoning_effort = self.current_reasoning_effort(config);
        let ghost before = self.history@;
        self.history.push(ChatMessage::user(message).with_artifacts(attachments));
        assert(crate::llm::types::message_views(self.history@)
            =~= crate::llm::types::message_views(before).push(question(message@, files)));
        if self.title.is_none() {
            self.title = Some(derive_title(message));
        }
        let turn_id = self.next_turn_id;
        self.next_turn_id = turn_id + 1;
        let partial = String::new();
        let reasoning = String::new();
        let artifacts: Vec<Artifact> = Vec::new();
        assert(partial@ =~= Seq::<char>::empty());
        assert(crate::events::artifact_views(artifacts@) =~= Seq::<ArtifactView>::empty());
        let turn = ActiveTurn {
            turn_id,
            partial,
            reasoning,
            artifacts,
            buffer: TurnBuffer::new(),
            approvals: SessionApprovals::new(),
        };
        self.active = Some(turn);
        Ok(
            TurnTask {
                turn_id,
                model,
                reasoning_effort,
                history: copy_messages(&self.history),
                summary: copy_opt(&self.summary),
                policy: ContextPolicy { max_prompt_tokens: config.context.max_prompt_tokens },
            },
        )
    }

    /// Asks the last question again: what came after it is dropped, and the
    /// turn runs anew with the same attachments.
    pub fn regenerate(&mut self, config: &Config) -> (r: Result<TurnTask, ApiError>)
        requires
            old(self)@.next_turn_id < u64::MAX,
        ensures
            (task_view(r), final(self)@) == regenerate_outcome(old(self)@, config@),
            session_inv(old(self)@) ==> session_inv(final(self)@),
    {
        if self.active.is_some() {
            return Err(
                ApiError::new(
                    ApiErrorKind::Busy,
                    "a turn is already in progress; abort it first",
                ),
            );
        }
        let last_user: usize = match find_last_user(&self.history) {
            Some(i) => i,
            None => {
                return Err(ApiError::config("nothing to regenerate"));
            },
        };
        if self.history.len() - last_user <= 1 {
            return Err(ApiError::config("nothing to regenerate"));
        }
        let message = self.history[last_user].content.clone();
        let attachments = copy_artifacts(&self.history[last_user].artifacts);
        self.history.truncate(last_user);
        assert(self@ =~= rewound(old(self)@));
        self.send_with_attachments(message.as_str(), attachments, config)
    }

    /// Aborts the turn in progress; nothing happens when there is none. What it
    /// had said stays. Gives the last event of the aborted turn.
    pub fn abort(&mut self) -> (r: Option<CoreEvent>)
        ensures
            r is Some <==> old(self)@.active is Some,
            r matches Some(e) ==> e@ == crate::events::error_event(
                ApiErrorKind::Aborted,
                "turn aborted"@,
            ),
            final(self)@ == aborted(old(self)@),
            session_inv(old(self)@) ==> session_inv(final(self)@),
    {
        self.abort_turn(None)
    }

    /// Aborts the turn in progress, or only the one with an id: one that has
    /// finished or was followed by another is left alone.
    pub fn abort_turn(&mut self, only: Option<u64>) -> (r: Option<CoreEvent>)
        ensures
            r is Some <==> is_target(old(self)@, only),
            r matches Some(e) ==> e@ == crate::events::error_event(
                ApiErrorKind::Aborted,
                "turn aborted"@,
            ),
            final(self)@ == if is_target(old(self)@, only) {
                aborted(old(self)@)
            } else {
                old(self)@
            },
            session_inv(old(self)@) ==> session_inv(final(self)@),
    {
        let target = match &self.active {
            Some(a) => match only {
                Some(id) => a.turn_id == id,
                None => true,
            },
            None => false,
        };
        if !target {
            return None;
        }
        let ghost before = self.history@;
        if let Some(a) = self.active.take() {
            if !empty(a.partial.as_str()) {
                let message = assistant_message(a.partial.as_str(), a.reasoning.as_str());
                self.history.push(message.with_artifacts(a.artifacts));
                assert(crate::llm::types::message_views(self.history@)
                    =~= crate::llm::types::message_views(before).push(partial_answer(a@)));
            }
        }
        Some(CoreEvent::error(ApiErrorKind::Aborted, "turn aborted"))
    }

    /// Ends the turn with an id with what its loop brought. False where it is
    /// no longer in progress: an abort has already kept what there was.
    pub fn finalize_turn(&mut self, turn_id: u64, result: LoopResult) -> (r: bool)
        ensures
            r == is_current(old(self)@, turn_id),
            final(self)@ == finalized(old(self)@, turn_id, result@),
            session_inv(old(self)@) ==> session_inv(final(self)@),
    {
        if !self.is_turn(turn_id) {
            return false;
        }
        let ghost h = self@.history;
        if let Some(a) = self.active.take() {
            if let Some(usage) = result.usage {
                self.accumulated_usage.add(&usage);
            }
            let mut produced = result.new_messages;
            let ghost made = crate::llm::types::message_views(produced@);
            if produced.len() > 0 {
                attach_artifacts(&mut produced, copy_artifacts(&a.artifacts));
                let ghost before = self.history@;
                let ghost more = produced@;
                self.history.append(&mut produced);
                assert(crate::llm::types::message_views(self.history@) =~= h
                    + crate::llm::types::message_views(more));
            } else if !empty(a.partial.as_str()) {
                let message = assistant_message(a.partial.as_str(), a.reasoning.as_str());
                self.history.push(message.with_artifacts(a.artifacts));
                assert(crate::llm::types::message_views(self.history@) =~= h.push(
                    partial_answer(a@),
                ));
            } else if result.outcome == TurnOutcome::Failed {
                let n: usize = self.history.len();
                if n > 0 && self.history[n - 1].role == Role::User {
                    assert(h.last() == self.history@[n - 1]@);
                    let _ = self.history.pop();
                    assert(crate::llm::types::message_views(self.history@) =~= h.drop_last());
                }
            }
        }
        true
    }

    /// Keeps the window only: what was dropped is in the summary now.
    pub(crate) fn compact(&mut self, summary: &str, window: &Vec<ChatMessage>, usage: &Usage)
        ensures
            final(self)@ == (SessionView {
                usage: crate::events::usage_sum(old(self)@.usage, *usage),
                summary: Some(summary@),
                history: crate::llm::types::message_views(window@),
                ..old(self)@
            }),
    {
        self.accumulated_usage.add(usage);
        self.summary = Some(summary.to_owned());
        self.history = copy_messages(window);
    }

    /// Takes note of an event of the turn with an id; false where it is no
    /// longer in progress.
    pub fn record(&mut self, turn_id: u64, event: &CoreEvent) -> (r: bool)
        ensures
            r == is_current(old(self)@, turn_id),
            final(self)@ == with_event(old(self)@, turn_id, event@),
            session_inv(old(self)@) ==> session_inv(final(self)@),
    {
        if !self.is_turn(turn_id) {
            return false;
        }
        if let Some(a) = self.active.take() {
            let mut turn = a;
            match event {
                CoreEvent::Delta { text } => {
                    turn.partial.append(text.as_str());
                },
                CoreEvent::Reasoning { text } => {
                    turn.reasoning.append(text.as_str());
                },
                _ => {},
            }
            turn.buffer.push(event.clone());
            assert(turn@ =~= noted(a@, event@));
            self.active = Some(turn);
        }
        true
    }

    /// Takes note of a file that the turn with an id produced; gives the event
    /// that shows it, and none where the turn is no longer in progress.
    pub fn record_artifact(&mut self, turn_id: u64, artifact: Artifact) -> (r: Option<CoreEvent>)
        ensures
            r is Some <==> is_current(old(self)@, turn_id),
            r matches Some(e) ==> e@ == file_event(artifact@),
            final(self)@ == with_file(old(self)@, turn_id, artifact@),
            session_inv(old(self)@) ==> session_inv(final(self)@),
    {
        if !self.is_turn(turn_id) {
            return None;
        }
        let event = CoreEvent::artifact(&artifact);
        if let Some(a) = self.active.take() {
            let mut turn = a;
            turn.artifacts.push(artifact);
            assert(crate::events::artifact_views(turn.artifacts@) =~= a@.artifacts.push(artifact@));
            turn.buffer.push(event.clone());
            self.active = Some(turn);
        }
        Some(event)
    }

    /// The events of the turn in progress from its start on, then the live
    /// ones; a closed stream when there is none.
    pub fn subscribe(&self) -> (r: EventStream)
        ensures
            r.follows() == (self@.active is Some),
            self@.active matches Some(a) ==> r.pending() == a.buffer,
            self@.active is None ==> r.pending() == Seq::<CoreEventView>::empty(),
    {
        match &self.active {
            Some(a) => EventStream::replay(a.buffer.snapshot()),
            None => EventStream::closed(),
        }
    }

    /// Opens a request for consent of the turn with an id; gives its id and the
    /// event that shows it, and none where the turn is no longer in progress.
    pub fn request_approval(&mut self, turn_id: u64, kind: ApprovalKind, summary: &str) -> (r:
        Option<(String, CoreEvent)>)
        ensures
            r is Some <==> is_current(old(self)@, turn_id),
            r matches Some(x) ==> ({
                let n = old(self)@.active->Some_0.approvals.next_id;
                let id = crate::session::approvals::approval_id(n);
                let e = CoreEventView::ApprovalRequest { id: id, kind: kind@, summary: summary@ };
                let a = ActiveView {
                    approvals: crate::session::approvals::requested(
                        old(self)@.active->Some_0.approvals,
                    ),
                    ..old(self)@.active->Some_0
                };
                &&& x.0@ == id
                &&& x.1@ == e
                &&& final(self)@ == (SessionView { active: Some(noted(a, e)), ..old(self)@ })
            }),
            r is None ==> final(self)@ == old(self)@,
    {
        if !self.is_turn(turn_id) {
            return None;
        }
        let mut out: Option<(String, CoreEvent)> = None;
        if let Some(a) = self.active.take() {
            let mut turn = a;
            let (id, event) = turn.approvals.request(kind, summary);
            turn.buffer.push(event.clone());
            self.active = Some(turn);
            out = Some((id, event));
        }
        out
    }

    /// Delivers a decision to a request of the turn in progress.
    pub fn approve(&mut self, request_id: &str, decision: Decision) -> (r: Result<(), ApiError>)
        ensures
            r is Ok <==> (old(self)@.active matches Some(a) && crate::session::approvals::waits(
                a.approvals,
                request_id@,
            )),
            r is Ok ==> final(self)@ == (SessionView {
                active: Some(
                    (ActiveView {
                        approvals: crate::session::approvals::resolved(
                            old(self)@.active->Some_0.approvals,
                            request_id@,
                            decision,
                        ),
                        ..old(self)@.active->Some_0
                    }),
                ),
                ..old(self)@
            }),
            r is Err ==> final(self)@ == old(self)@,
            r matches Err(e) ==> e@ == crate::error::failure(
                ApiErrorKind::NotFound,
                if old(self)@.active is None {
                    "no turn is awaiting approval"@
                } else {
                    "no pending approval with id "@ + crate::text::quoted(request_id@)
                },
            ),
    {
        if let Some(a) = self.active.take() {
            let mut turn = a;
            let known = turn.approvals.resolve(request_id, decision);
            self.active = Some(turn);
            if known {
                return Ok(());
            }
            assert(self@ =~= old(self)@);
            let mut message = "no pending approval with id ".to_owned();
            message.append(quote(request_id).as_str());
            return Err(ApiError::new(ApiErrorKind::NotFound, message.as_str()));
        }
        Err(ApiError::new(ApiErrorKind::NotFound, "no turn is awaiting approval"))
    }

    /// Takes the outcome of a request of the turn with an id: what was decided,
    /// and a refusal where nothing was decided by now or the turn is over.
    pub fn settle_approval(&mut self, turn_id: u64, request_id: &str) -> (r: Decision)
        ensures
            r == if is_current(old(self)@, turn_id) {
                crate::session::approvals::outcome(
                    old(self)@.active->Some_0.approvals,
                    request_id@,
                )
            } else {
                Decision::Deny
            },
            final(self)@ == if is_current(old(self)@, turn_id) {
                SessionView {
                    active: Some(
                        (ActiveView {
                            approvals: crate::session::approvals::settled(
                                old(self)@.active->Some_0.approvals,
                                request_id@,
                            ),
                            ..old(self)@.active->Some_0
                        }),
                    ),
                    ..old(self)@
                }
            } else {
                old(self)@
            },
    {
        if !self.is_turn(turn_id) {
            return Decision::Deny;
        }
        let mut decision = Decision::Deny;
        if let Some(a) = self.active.take() {
            let mut turn = a;
            decision = turn.approvals.settle(request_id);
            self.active = Some(turn);
        }
        decision
    }

    /// The session as it is stored.
    pub fn to_conversation(&self) -> (r: Conversation)
        ensures
            r@ == conversation_of(self@),
    {
        Conversation {
            schema: CONVERSATION_SCHEMA_VERSION,
            id: self.conversation_id.clone(),
            title: copy_opt(&self.title),
            created_at: self.created_at.clone(),
            updated_at: self.updated_at.clone(),
            summary: copy_opt(&self.summary),
            messages: stored_messages(&self.history),
            usage: self.accumulated_usage,
        }
    }

    /// The path and the text of the conversation's file as it is to be written
    /// now; none for a session that is not kept.
    pub fn persist(&self, now: &str) -> (r: Option<Result<(String, String), ApiError>>)
        ensures
            r is Some <==> self@.store is Some,
            r matches Some(w) ==> match w {
                Ok(f) => {
                    let stamped = ConversationView { updated_at: now@, ..conversation_of(self@) };
                    &&& crate::conversations::valid_id(self@.id)
                    &&& f.0@ == crate::conversations::conversation_path(
                        self@.store->Some_0,
                        self@.id,
                    )
                    &&& f.1@ == crate::json::tree_pretty(
                        crate::json::settle(crate::conversations::conversation_json(stamped)),
                    )
                    &&& crate::conversations::storable(conversation_of(self@))
                        ==> crate::conversations::file_read(f.1@) == Ok::<
                        ConversationView,
                        ApiErrorView,
                    >(stamped)
                },
                Err(e) => !crate::conversations::valid_id(self@.id) && e@
                    == crate::conversations::id_error(self@.id),
            },
    {
        match &self.store {
            Some(store) => {
                let c = self.to_conversation();
                assert(c@.id == c.id@);
                Some(store.save(&c, now))
            },
            None => None,
        }
    }
}

/// The messages of a stored conversation.
fn chat_messages(v: &Vec<StoredMessage>) -> (r: Vec<ChatMessage>)
    ensures
        crate::llm::types::message_views(r@) == crate::fields::views_of(v@),
{
    let mut out: Vec<ChatMessage> = Vec::new();
    let mut i: usize = 0;
    while i < v.len()
        invariant
            i <= v.len(),
            out@.len() == i,
            forall|k: int| 0 <= k < i ==> (#[trigger] out@[k])@ == v@[k]@,
        decreases v.len() - i,
    {
        out.push(v[i].to_chat());
        i = i + 1;
    }
    assert(crate::llm::types::message_views(out@) =~= crate::fields::views_of(v@));
    out
}

/// The stored form of messages.
fn stored_messages(v: &Vec<ChatMessage>) -> (r: Vec<StoredMessage>)
    ensures
        crate::fields::views_of(r@) == crate::llm::types::message_views(v@),
{
    let mut out: Vec<StoredMessage> = Vec::new();
    let mut i: usize = 0;
    while i < v.len()
        invariant
            i <= v.len(),
            out@.len() == i,
            forall|k: int| 0 <= k < i ==> (#[trigger] out@[k])@ == v@[k]@,
        decreases v.len() - i,
    {
        out.push(StoredMessage::from_chat(&v[i]));
        i = i + 1;
    }
    assert(crate::fields::views_of(out@) =~= crate::llm::types::message_views(v@));
    out
}

} // verus!

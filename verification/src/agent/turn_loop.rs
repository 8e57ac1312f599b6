//! The tool-calling loop of one turn as a state machine: it is told what
//! happened (the model streamed an event, a tool finished) and says what to
//! emit and what to do next. Bounded by a number of steps.

use vstd::prelude::*;

use crate::error::{ApiError, ApiErrorView};
use crate::events::{CoreEvent, CoreEventView, Usage};
use crate::json::{Json, JsonView};
use crate::llm::types::{
    copy_calls, copy_messages, ChatMessage, ChatMessageView, ChatRequest, ChatRequestView, Role,
    ToolCall, ToolCallView,
};
use crate::text::{copy_opt, decimal_of, empty};

verus! {

/// How a turn ended.
#[derive(Debug, Clone, Copy, PartialEq, Eq, Structural)]
pub enum TurnOutcome {
    /// The model produced a plain answer, or the step limit was reached.
    Completed,
    /// The provider failed before finishing.
    Failed,
}

/// The outcome of a turn and the messages it produced.
#[derive(Debug)]
pub struct LoopResult {
    pub outcome: TurnOutcome,
    /// The messages that the session keeps.
    pub new_messages: Vec<ChatMessage>,
    /// Usage over all provider calls of the turn, where any was reported.
    pub usage: Option<Usage>,
}

/// The content of a [`LoopResult`].
#[verifier::ext_equal]
pub struct LoopResultView {
    pub outcome: TurnOutcome,
    pub new_messages: Seq<ChatMessageView>,
    pub usage: Option<Usage>,
}

impl View for LoopResult {
    type V = LoopResultView;

    open spec fn view(&self) -> LoopResultView {
        LoopResultView {
            outcome: self.outcome,
            new_messages: crate::llm::types::message_views(self.new_messages@),
            usage: self.usage,
        }
    }
}

/// Where a turn stands.
#[derive(Debug, Clone, Copy, PartialEq, Eq, Structural)]
pub enum Phase {
    /// The next step is to begin.
    Ready,
    /// The model is streaming.
    Streaming,
    /// Tool calls are being executed.
    Calling,
    /// The turn is over.
    Over,
}

/// The state of a turn.
#[verifier::ext_equal]
pub struct LoopView {
    pub model: Seq<char>,
    pub effort: Option<Seq<char>>,
    pub tools: Seq<JsonView>,
    pub max_steps: u32,
    /// Steps that may still begin.
    pub left: u32,
    pub phase: Phase,
    /// What the model is sent.
    pub messages: Seq<ChatMessageView>,
    /// What the turn has produced.
    pub produced: Seq<ChatMessageView>,
    pub total: Usage,
    pub reported: bool,
    /// What the model has said in this step.
    pub text: Seq<char>,
    /// What the model has thought in this step.
    pub thinking: Seq<char>,
    /// The tool calls of this step that are still to be executed.
    pub calls: Seq<ToolCallView>,
}

/// What happened.
#[derive(Debug)]
pub enum LoopInput {
    /// The turn may go on; `cancelled` where it was aborted.
    Proceed { cancelled: bool },
    /// The model could not be reached.
    Unreachable(ApiError),
    /// The model streamed an event.
    Event { event: CoreEvent, cancelled: bool },
    /// The stream closed without a terminal event.
    Closed,
    /// The tool call that was to be run is over.
    ToolDone(ChatMessage),
}

/// The content of a [`LoopInput`].
#[allow(inconsistent_fields)]
#[verifier::ext_equal]
pub enum LoopInputView {
    Proceed { cancelled: bool },
    Unreachable(ApiErrorView),
    Event { event: CoreEventView, cancelled: bool },
    Closed,
    ToolDone(ChatMessageView),
}

impl View for LoopInput {
    type V = LoopInputView;

    open spec fn view(&self) -> LoopInputView {
        match self {
            LoopInput::Proceed { cancelled } => LoopInputView::Proceed { cancelled: *cancelled },
            LoopInput::Unreachable(e) => LoopInputView::Unreachable(e@),
            LoopInput::Event { event, cancelled } => LoopInputView::Event {
                event: event@,
                cancelled: *cancelled,
            },
            LoopInput::Closed => LoopInputView::Closed,
            LoopInput::ToolDone(m) => LoopInputView::ToolDone(m@),
        }
    }
}

/// What is to be done next.
#[derive(Debug)]
pub enum LoopAction {
    /// Proceed.
    Again,
    /// Send the request to the model and listen.
    Ask(ChatRequest),
    /// Go on listening.
    Listen,
    /// Execute the tool call.
    RunTool(ToolCall),
    /// The turn is over.
    Finish(LoopResult),
    /// Nothing: what happened does not fit where the turn stands.
    Idle,
}

/// The content of a [`LoopAction`].
#[verifier::ext_equal]
pub enum LoopActionView {
    Again,
    Ask(ChatRequestView),
    Listen,
    RunTool(ToolCallView),
    Finish(LoopResultView),
    Idle,
}

impl View for LoopAction {
    type V = LoopActionView;

    open spec fn view(&self) -> LoopActionView {
        match self {
            LoopAction::Again => LoopActionView::Again,
            LoopAction::Ask(r) => LoopActionView::Ask(r@),
            LoopAction::Listen => LoopActionView::Listen,
            LoopAction::RunTool(c) => LoopActionView::RunTool(c@),
            LoopAction::Finish(r) => LoopActionView::Finish(r@),
            LoopAction::Idle => LoopActionView::Idle,
        }
    }
}

/// What a turn says to something that happened.
#[verifier::ext_equal]
pub struct Reaction {
    pub state: LoopView,
    pub emit: Seq<CoreEventView>,
    pub action: LoopActionView,
}

/// The sum of two counts of which one may be unknown; unknown only where both
/// are.
pub open spec fn merged(a: Option<u64>, b: Option<u64>) -> Option<u64> {
    if a is None && b is None {
        None
    } else {
        Some(crate::events::count_sum(a, b))
    }
}

/// A total with one more report.
pub open spec fn with_report(total: Usage, report: Usage) -> Usage {
    Usage {
        input_tokens: merged(total.input_tokens, report.input_tokens),
        output_tokens: merged(total.output_tokens, report.output_tokens),
        total_tokens: merged(total.total_tokens, report.total_tokens),
    }
}

/// A single report passes through unchanged.
pub proof fn single_report_passes_through(report: Usage)
    ensures
        with_report(crate::events::no_usage(), report) == report,
{
}

/// The usage of a turn: none where nothing was reported.
pub open spec fn turn_usage(s: LoopView) -> Option<Usage> {
    if s.reported {
        Some(s.total)
    } else {
        None
    }
}

/// The assistant message of an answer with its thinking.
pub open spec fn answer(content: Seq<char>, thinking: Seq<char>) -> ChatMessageView {
    ChatMessageView {
        reasoning: if thinking.len() == 0 {
            None
        } else {
            Some(thinking)
        },
        ..crate::llm::types::message(Role::Assistant, content)
    }
}

/// The assistant message that requests tools.
pub open spec fn tool_request(content: Seq<char>, calls: Seq<ToolCallView>) -> ChatMessageView {
    ChatMessageView {
        tool_calls: Some(calls),
        ..crate::llm::types::message(Role::Assistant, content)
    }
}

/// What the model is asked in a step.
pub open spec fn step_request(s: LoopView) -> ChatRequestView {
    ChatRequestView {
        model: s.model,
        messages: s.messages,
        reasoning_effort: crate::llm::types::effort(s.effort),
        tools: s.tools,
        max_tokens: None,
    }
}

/// What is said when the step limit is reached.
pub open spec fn limit_notice(max_steps: u32) -> Seq<char> {
    "I reached my tool-call step limit ("@ + crate::text::decimal(max_steps as nat)
        + ") without finishing. Here is what I gathered so far; ask me to continue if you want more."@
}

/// The end of a turn.
pub open spec fn ended(
    s: LoopView,
    emit: Seq<CoreEventView>,
    outcome: TurnOutcome,
    usage: Option<Usage>,
) -> Reaction {
    Reaction {
        state: LoopView { phase: Phase::Over, ..s },
        emit: emit,
        action: LoopActionView::Finish(
            LoopResultView { outcome: outcome, new_messages: s.produced, usage: usage },
        ),
    }
}

/// The turn ends in failure.
pub open spec fn failed_with(s: LoopView, e: ApiErrorView) -> Reaction {
    ended(
        s,
        seq![crate::events::error_event(e.kind, e.message)],
        TurnOutcome::Failed,
        turn_usage(s),
    )
}

/// The step limit is reached: the turn says so.
pub open spec fn at_limit(s: LoopView) -> Reaction {
    let notice = limit_notice(s.max_steps);
    let t = LoopView {
        produced: s.produced.push(crate::llm::types::message(Role::Assistant, notice)),
        ..s
    };
    ended(
        t,
        seq![
            CoreEventView::Delta { text: notice },
            CoreEventView::TurnDone { usage: turn_usage(s) },
        ],
        TurnOutcome::Completed,
        turn_usage(s),
    )
}

/// The model has finished a step: without tool calls it was the answer, with
/// them they are recorded and executed.
pub open spec fn step_over(s: LoopView, usage: Option<Usage>) -> Reaction {
    let t = match usage {
        Some(u) => LoopView { total: with_report(s.total, u), reported: true, ..s },
        None => s,
    };
    if t.calls.len() == 0 {
        ended(
            LoopView { produced: t.produced.push(answer(t.text, t.thinking)), ..t },
            seq![CoreEventView::TurnDone { usage: turn_usage(t) }],
            TurnOutcome::Completed,
            turn_usage(t),
        )
    } else {
        let m = tool_request(t.text, t.calls);
        Reaction {
            state: LoopView {
                phase: Phase::Calling,
                messages: t.messages.push(m),
                produced: t.produced.push(m),
                ..t
            },
            emit: seq![],
            action: LoopActionView::Again,
        }
    }
}

/// What does not fit where the turn stands changes nothing.
pub open spec fn ignored(s: LoopView) -> Reaction {
    Reaction { state: s, emit: seq![], action: LoopActionView::Idle }
}

/// The next step begins, or the next tool call.
pub open spec fn on_proceed(s: LoopView, cancelled: bool) -> Reaction {
    match s.phase {
        Phase::Ready => if cancelled {
            ended(s, seq![], TurnOutcome::Completed, None)
        } else {
            Reaction {
                state: LoopView {
                    phase: Phase::Streaming,
                    left: if s.left > 0 {
                        (s.left - 1) as u32
                    } else {
                        0
                    },
                    text: seq![],
                    thinking: seq![],
                    calls: seq![],
                    ..s
                },
                emit: seq![],
                action: LoopActionView::Ask(step_request(s)),
            }
        },
        Phase::Calling => if cancelled {
            ended(s, seq![], TurnOutcome::Completed, turn_usage(s))
        } else if s.calls.len() > 0 {
            Reaction { state: s, emit: seq![], action: LoopActionView::RunTool(s.calls[0]) }
        } else {
            ignored(s)
        },
        _ => ignored(s),
    }
}

/// The model streamed an event.
pub open spec fn on_event(s: LoopView, e: CoreEventView, cancelled: bool) -> Reaction {
    if s.phase != Phase::Streaming {
        ignored(s)
    } else if cancelled {
        ended(s, seq![], TurnOutcome::Completed, turn_usage(s))
    } else {
        match e {
            CoreEventView::Delta { text } => Reaction {
                state: LoopView { text: s.text + text, ..s },
                emit: seq![e],
                action: LoopActionView::Listen,
            },
            CoreEventView::Reasoning { text } => Reaction {
                state: LoopView { thinking: s.thinking + text, ..s },
                emit: seq![e],
                action: LoopActionView::Listen,
            },
            CoreEventView::ToolCall { id, name, input } => Reaction {
                state: LoopView {
                    calls: s.calls.push(ToolCallView { id: id, name: name, arguments: input }),
                    ..s
                },
                emit: seq![],
                action: LoopActionView::Listen,
            },
            CoreEventView::TurnDone { usage } => step_over(s, usage),
            CoreEventView::Error { kind, message } => failed_with(
                s,
                crate::error::failure(kind, message),
            ),
            _ => Reaction { state: s, emit: seq![e], action: LoopActionView::Listen },
        }
    }
}

/// A tool call is over.
pub open spec fn on_tool_done(s: LoopView, m: ChatMessageView) -> Reaction {
    if s.phase != Phase::Calling || s.calls.len() == 0 {
        ignored(s)
    } else {
        let t = LoopView {
            messages: s.messages.push(m),
            produced: s.produced.push(m),
            calls: s.calls.skip(1),
            ..s
        };
        if t.calls.len() > 0 {
            Reaction { state: t, emit: seq![], action: LoopActionView::Again }
        } else if t.left > 0 {
            Reaction {
                state: LoopView { phase: Phase::Ready, ..t },
                emit: seq![],
                action: LoopActionView::Again,
            }
        } else {
            at_limit(t)
        }
    }
}

/// What a turn says to something that happened.
pub open spec fn react(s: LoopView, i: LoopInputView) -> Reaction {
    match i {
        LoopInputView::Proceed { cancelled } => on_proceed(s, cancelled),
        LoopInputView::Unreachable(e) => if s.phase == Phase::Streaming {
            failed_with(s, e)
        } else {
            ignored(s)
        },
        LoopInputView::Event { event, cancelled } => on_event(s, event, cancelled),
        LoopInputView::Closed => if s.phase == Phase::Streaming {
            step_over(s, None)
        } else {
            ignored(s)
        },
        LoopInputView::ToolDone(m) => on_tool_done(s, m),
    }
}

/// The state after a list of things that happened.
pub open spec fn after_all(s: LoopView, inputs: Seq<LoopInputView>) -> LoopView
    decreases inputs.len(),
{
    if inputs.len() == 0 {
        s
    } else {
        react(after_all(s, inputs.drop_last()), inputs.last()).state
    }
}

/// What was emitted over a list of things that happened.
pub open spec fn emitted(s: LoopView, inputs: Seq<LoopInputView>) -> Seq<CoreEventView>
    decreases inputs.len(),
{
    if inputs.len() == 0 {
        seq![]
    } else {
        emitted(s, inputs.drop_last()) + react(after_all(s, inputs.drop_last()), inputs.last()).emit
    }
}

/// How often the model was asked over a list of things that happened.
pub open spec fn times_asked(s: LoopView, inputs: Seq<LoopInputView>) -> nat
    decreases inputs.len(),
{
    if inputs.len() == 0 {
        0
    } else {
        times_asked(s, inputs.drop_last()) + (if react(
            after_all(s, inputs.drop_last()),
            inputs.last(),
        ).action is Ask {
            1nat
        } else {
            0nat
        })
    }
}

/// A turn that is over stays over and says nothing more.
pub proof fn over_is_final(s: LoopView, i: LoopInputView)
    requires
        s.phase == Phase::Over,
    ensures
        react(s, i) == ignored(s),
{
}

/// Whether a turn that is to begin a step may still do so.
pub open spec fn loop_inv(s: LoopView) -> bool {
    s.phase == Phase::Ready ==> s.left > 0
}

/// Every reaction keeps the invariant.
proof fn lemma_inv_kept(s: LoopView, inputs: Seq<LoopInputView>)
    requires
        loop_inv(s),
    ensures
        loop_inv(after_all(s, inputs)),
    decreases inputs.len(),
{
    if inputs.len() > 0 {
        lemma_inv_kept(s, inputs.drop_last());
    }
}

/// The model is asked no more often than the step limit says, whatever the
/// model and the tools do.
pub proof fn steps_are_bounded(s: LoopView, inputs: Seq<LoopInputView>)
    requires
        loop_inv(s),
    ensures
        times_asked(s, inputs) + after_all(s, inputs).left <= s.left,
    decreases inputs.len(),
{
    if inputs.len() > 0 {
        steps_are_bounded(s, inputs.drop_last());
        lemma_inv_kept(s, inputs.drop_last());
    }
}

/// A turn emits at most one terminal event, as the last thing it emits, and
/// only when it is over.
pub proof fn turn_ends_once(s: LoopView, inputs: Seq<LoopInputView>)
    requires
        s.phase != Phase::Over,
    ensures
        crate::llm::client::no_terminal(emitted(s, inputs)) || crate::llm::client::ends_once(
            emitted(s, inputs),
        ),
        after_all(s, inputs).phase != Phase::Over ==> crate::llm::client::no_terminal(
            emitted(s, inputs),
        ),
    decreases inputs.len(),
{
    if inputs.len() > 0 {
        turn_ends_once(s, inputs.drop_last());
        let mid = after_all(s, inputs.drop_last());
        let a = emitted(s, inputs.drop_last());
        let r = react(mid, inputs.last());
        if mid.phase == Phase::Over {
            assert(a + r.emit =~= a);
        } else {
            let b = r.emit;
            assert(crate::llm::client::no_terminal(b) || crate::llm::client::ends_once(b)) by {
                if b.len() == 2 {
                    assert(b.drop_last() =~= seq![b[0]]);
                } else if b.len() == 1 {
                    assert(b.drop_last() =~= seq![]);
                }
            }
            assert(r.state.phase != Phase::Over ==> crate::llm::client::no_terminal(b));
            crate::llm::client::lemma_append_ends(a, b);
        }
    }
}

/// Whether what the model is sent is what the turn began with followed by what
/// it has produced.
pub open spec fn coherent(start: Seq<ChatMessageView>, s: LoopView) -> bool {
    s.phase != Phase::Over ==> s.messages == start + s.produced
}

/// As long as a turn runs, the model is sent the prompt of the turn followed by
/// exactly the messages that the session will keep.
pub proof fn model_sees_what_is_kept(
    start: Seq<ChatMessageView>,
    s: LoopView,
    inputs: Seq<LoopInputView>,
)
    requires
        coherent(start, s),
        s.phase != Phase::Over,
    ensures
        coherent(start, after_all(s, inputs)),
    decreases inputs.len(),
{
    if inputs.len() > 0 {
        model_sees_what_is_kept(start, s, inputs.drop_last());
        let mid = after_all(s, inputs.drop_last());
        let end = after_all(s, inputs);
        if end.phase != Phase::Over && mid.phase != Phase::Over {
            if end.produced.len() > mid.produced.len() {
                let m = end.produced.last();
                assert((start + mid.produced).push(m) =~= start + mid.produced.push(m));
            }
        }
    }
}

/// One turn.
#[derive(Debug)]
pub struct TurnLoop {
    model: String,
    effort: Option<String>,
    tools: Vec<Json>,
    max_steps: u32,
    left: u32,
    phase: Phase,
    messages: Vec<ChatMessage>,
    produced: Vec<ChatMessage>,
    total: Usage,
    reported: bool,
    text: String,
    thinking: String,
    calls: Vec<ToolCall>,
}

impl View for TurnLoop {
    type V = LoopView;

    closed spec fn view(&self) -> LoopView {
        LoopView {
            model: self.model@,
            effort: crate::text::opt_text(self.effort),
            tools: crate::json::views(self.tools@),
            max_steps: self.max_steps,
            left: self.left,
            phase: self.phase,
            messages: crate::llm::types::message_views(self.messages@),
            produced: crate::llm::types::message_views(self.produced@),
            total: self.total,
            reported: self.reported,
            text: self.text@,
            thinking: self.thinking@,
            calls: crate::llm::types::call_views(self.calls@),
        }
    }
}

/// What to emit and what to do next.
#[derive(Debug)]
pub struct LoopOutput {
    pub emit: Vec<CoreEvent>,
    pub action: LoopAction,
}

/// Whether an output and the state left behind are the reaction `r`.
pub open spec fn reacts(state: LoopView, out: LoopOutput, r: Reaction) -> bool {
    &&& state == r.state
    &&& crate::events::event_views(out.emit@) == r.emit
    &&& out.action@ == r.action
}

/// A list of one event.
fn one_event(event: CoreEvent) -> (r: Vec<CoreEvent>)
    ensures
        crate::events::event_views(r@) == seq![event@],
{
    let r = vec![event];
    assert(crate::events::event_views(r@) =~= seq![event@]);
    r
}

/// An empty list of events.
fn no_events() -> (r: Vec<CoreEvent>)
    ensures
        crate::events::event_views(r@) == Seq::<CoreEventView>::empty(),
{
    let r: Vec<CoreEvent> = Vec::new();
    assert(crate::events::event_views(r@) =~= Seq::<CoreEventView>::empty());
    r
}

fn merge(a: Option<u64>, b: Option<u64>) -> (r: Option<u64>)
    ensures
        r == merged(a, b),
{
    match (a, b) {
        (None, None) => None,
        (Some(x), None) => Some(x),
        (None, Some(y)) => Some(y),
        (Some(x), Some(y)) => Some(x.wrapping_add(y)),
    }
}

/// Adds a provider's report to a total: a field stays unknown while no report
/// has set it.
pub fn add_report(total: &mut Usage, report: &Usage)
    ensures
        *final(total) == with_report(*old(total), *report),
{
    total.input_tokens = merge(total.input_tokens, report.input_tokens);
    total.output_tokens = merge(total.output_tokens, report.output_tokens);
    total.total_tokens = merge(total.total_tokens, report.total_tokens);
}

/// The assistant message of an answer with its thinking.
pub fn assistant_message(content: &str, thinking: &str) -> (r: ChatMessage)
    ensures
        r@ == answer(content@, thinking@),
{
    let message = ChatMessage::assistant(content);
    if empty(thinking) {
        message
    } else {
        message.with_reasoning(thinking)
    }
}

impl TurnLoop {
    /// A turn with the messages of its prompt. At least one step may begin.
    pub fn new(
        model: &str,
        reasoning_effort: Option<String>,
        tools: Vec<Json>,
        messages: Vec<ChatMessage>,
        max_steps: u32,
    ) -> (r: TurnLoop)
        ensures
            r@ == (LoopView {
                model: model@,
                effort: crate::text::opt_text(reasoning_effort),
                tools: crate::json::views(tools@),
                max_steps: max_steps,
                left: if max_steps > 0 {
                    max_steps
                } else {
                    1
                },
                phase: Phase::Ready,
                messages: crate::llm::types::message_views(messages@),
                produced: seq![],
                total: crate::events::no_usage(),
                reported: false,
                text: seq![],
                thinking: seq![],
                calls: seq![],
            }),
            loop_inv(r@),
    {
        let r = TurnLoop {
            model: model.to_owned(),
            effort: reasoning_effort,
            tools,
            max_steps,
            left: if max_steps > 0 {
                max_steps
            } else {
                1
            },
            phase: Phase::Ready,
            messages,
            produced: Vec::new(),
            total: Usage { input_tokens: None, output_tokens: None, total_tokens: None },
            reported: false,
            text: String::new(),
            thinking: String::new(),
            calls: Vec::new(),
        };
        assert(r@.produced =~= seq![]);
        assert(r@.text =~= seq![]);
        assert(r@.thinking =~= seq![]);
        assert(r@.calls =~= seq![]);
        r
    }

    fn usage(&self) -> (r: Option<Usage>)
        ensures
            r == turn_usage(self@),
    {
        if self.reported {
            Some(self.total)
        } else {
            None
        }
    }

    fn idle(&self) -> (r: LoopOutput)
        ensures
            reacts(self@, r, ignored(self@)),
    {
        LoopOutput { emit: no_events(), action: LoopAction::Idle }
    }

    /// Ends the turn.
    fn end(&mut self, emit: Vec<CoreEvent>, outcome: TurnOutcome, usage: Option<Usage>) -> (r:
        LoopOutput)
        ensures
            reacts(
                final(self)@,
                r,
                ended(old(self)@, crate::events::event_views(emit@), outcome, usage),
            ),
    {
        self.phase = Phase::Over;
        LoopOutput {
            emit,
            action: LoopAction::Finish(
                LoopResult { outcome, new_messages: copy_messages(&self.produced), usage },
            ),
        }
    }

    /// Ends the turn in failure.
    fn fail(&mut self, error: ApiError) -> (r: LoopOutput)
        ensures
            reacts(final(self)@, r, failed_with(old(self)@, error@)),
    {
        let usage = self.usage();
        let emit = one_event(CoreEvent::Error { kind: error.kind, message: error.message });
        self.end(emit, TurnOutcome::Failed, usage)
    }

    /// Adds a message to what the turn has produced.
    fn produce(&mut self, message: ChatMessage)
        ensures
            final(self)@ == (LoopView { produced: old(self)@.produced.push(message@), ..old(self)@ }),
    {
        self.produced.push(message);
        assert(self@.produced =~= old(self)@.produced.push(message@));
    }

    /// Adds a message to what the model is sent and to what is produced.
    fn record(&mut self, message: ChatMessage)
        ensures
            final(self)@ == (LoopView {
                messages: old(self)@.messages.push(message@),
                produced: old(self)@.produced.push(message@),
                ..old(self)@
            }),
    {
        let copy = message.clone();
        self.messages.push(copy);
        assert(self@.messages =~= old(self)@.messages.push(message@));
        self.produced.push(message);
        assert(self@.produced =~= old(self)@.produced.push(message@));
    }

    /// Says that the step limit is reached.
    fn limit(&mut self) -> (r: LoopOutput)
        ensures
            reacts(final(self)@, r, at_limit(old(self)@)),
    {
        let mut notice = "I reached my tool-call step limit (".to_owned();
        notice.append(decimal_of(self.max_steps as u64).as_str());
        notice.append(
            ") without finishing. Here is what I gathered so far; ask me to continue if you want more.",
        );
        let usage = self.usage();
        self.produce(ChatMessage::assistant(notice.as_str()));
        let first = CoreEvent::Delta { text: notice };
        let second = CoreEvent::TurnDone { usage };
        let emit = vec![first, second];
        assert(crate::events::event_views(emit@) =~= seq![first@, second@]);
        self.end(emit, TurnOutcome::Completed, usage)
    }

    /// Ends a step of the model.
    fn finish_step(&mut self, usage: Option<Usage>) -> (r: LoopOutput)
        ensures
            reacts(final(self)@, r, step_over(old(self)@, usage)),
    {
        if let Some(u) = usage {
            add_report(&mut self.total, &u);
            self.reported = true;
        }
        if self.calls.len() == 0 {
            let message = assistant_message(self.text.as_str(), self.thinking.as_str());
            self.produce(message);
            let usage = self.usage();
            let emit = one_event(CoreEvent::TurnDone { usage });
            return self.end(emit, TurnOutcome::Completed, usage);
        }
        let message = ChatMessage::assistant_with_tool_calls(
            self.text.as_str(),
            copy_calls(&self.calls),
        );
        self.record(message);
        self.phase = Phase::Calling;
        LoopOutput { emit: no_events(), action: LoopAction::Again }
    }

    /// Begins the next step or the next tool call.
    fn proceed(&mut self, cancelled: bool) -> (r: LoopOutput)
        ensures
            reacts(final(self)@, r, on_proceed(old(self)@, cancelled)),
    {
        match self.phase {
            Phase::Ready => {
                if cancelled {
                    return self.end(no_events(), TurnOutcome::Completed, None);
                }
                let mut tools: Vec<Json> = Vec::new();
                let mut k: usize = 0;
                while k < self.tools.len()
                    invariant
                        k <= self.tools.len(),
                        tools@.len() == k,
                        forall|n: int| 0 <= n < k ==> (#[trigger] tools@[n])@ == self.tools@[n]@,
                    decreases self.tools.len() - k,
                {
                    tools.push(self.tools[k].copy());
                    k = k + 1;
                }
                assert(crate::json::views(tools@) =~= self@.tools);
                let request = ChatRequest::new(
                    self.model.as_str(),
                    copy_messages(&self.messages),
                ).with_reasoning_effort(copy_opt(&self.effort)).with_tools(tools);
                self.left = if self.left > 0 {
                    self.left - 1
                } else {
                    0
                };
                self.text = String::new();
                self.thinking = String::new();
                self.calls = Vec::new();
                self.phase = Phase::Streaming;
                assert(self@.text =~= seq![]);
                assert(self@.thinking =~= seq![]);
                assert(self@.calls =~= seq![]);
                LoopOutput { emit: no_events(), action: LoopAction::Ask(request) }
            },
            Phase::Calling => {
                if cancelled {
                    let usage = self.usage();
                    return self.end(no_events(), TurnOutcome::Completed, usage);
                }
                if self.calls.len() > 0 {
                    let call = self.calls[0].clone();
                    assert(call@ == self@.calls[0]);
                    LoopOutput { emit: no_events(), action: LoopAction::RunTool(call) }
                } else {
                    self.idle()
                }
            },
            _ => self.idle(),
        }
    }

    /// Takes an event of the model.
    fn event(&mut self, event: CoreEvent, cancelled: bool) -> (r: LoopOutput)
        ensures
            reacts(final(self)@, r, on_event(old(self)@, event@, cancelled)),
    {
        match self.phase {
            Phase::Streaming => {},
            _ => {
                return self.idle();
            },
        }
        if cancelled {
            let usage = self.usage();
            return self.end(no_events(), TurnOutcome::Completed, usage);
        }
        match event {
            CoreEvent::Delta { text } => {
                self.text.append(text.as_str());
                LoopOutput {
                    emit: one_event(CoreEvent::Delta { text }),
                    action: LoopAction::Listen,
                }
            },
            CoreEvent::Reasoning { text } => {
                self.thinking.append(text.as_str());
                LoopOutput {
                    emit: one_event(CoreEvent::Reasoning { text }),
                    action: LoopAction::Listen,
                }
            },
            CoreEvent::ToolCall { id, name, input } => {
                let call = ToolCall { id, name, arguments: input };
                self.calls.push(call);
                assert(self@.calls =~= old(self)@.calls.push(call@));
                LoopOutput { emit: no_events(), action: LoopAction::Listen }
            },
            CoreEvent::TurnDone { usage } => self.finish_step(usage),
            CoreEvent::Error { kind, message } => self.fail(ApiError { kind, message }),
            other => LoopOutput { emit: one_event(other), action: LoopAction::Listen },
        }
    }

    /// Takes the result of a tool call.
    fn tool_done(&mut self, message: ChatMessage) -> (r: LoopOutput)
        ensures
            reacts(final(self)@, r, on_tool_done(old(self)@, message@)),
    {
        let calling = match self.phase {
            Phase::Calling => self.calls.len() > 0,
            _ => false,
        };
        if !calling {
            return self.idle();
        }
        self.record(message);
        let ghost mid = self@;
        let _ = self.calls.remove(0);
        assert(self@.calls =~= mid.calls.skip(1));
        if self.calls.len() > 0 {
            LoopOutput { emit: no_events(), action: LoopAction::Again }
        } else if self.left > 0 {
            self.phase = Phase::Ready;
            LoopOutput { emit: no_events(), action: LoopAction::Again }
        } else {
            self.limit()
        }
    }

    /// Takes what happened and says what to emit and what to do next.
    pub fn step(&mut self, input: LoopInput) -> (r: LoopOutput)
        ensures
            reacts(final(self)@, r, react(old(self)@, input@)),
    {
        match input {
            LoopInput::Proceed { cancelled } => self.proceed(cancelled),
            LoopInput::Unreachable(e) => match self.phase {
                Phase::Streaming => self.fail(e),
                _ => self.idle(),
            },
            LoopInput::Event { event, cancelled } => self.event(event, cancelled),
            LoopInput::Closed => match self.phase {
                Phase::Streaming => self.finish_step(None),
                _ => self.idle(),
            },
            LoopInput::ToolDone(message) => self.tool_done(message),
        }
    }
}

} // verus!

//! A turn of a session: the prompt is fitted to its budget, older turns are
//! folded into the summary, and the loop starts.

use vstd::prelude::*;

use crate::agent::turn_loop::{LoopView, Phase, TurnLoop};
use crate::context::{assemble, split_window, summarize, summary_request, ContextPolicy};
use crate::events::{CoreEvent, CoreEventView, Usage};
use crate::json::{Json, JsonView};
use crate::llm::types::{ChatMessage, ChatMessageView, ChatRequest, ChatRequestView, Role};
use crate::session::{ChatSession, SessionView};
use crate::text::copy_opt;

verus! {

/// What a turn starts from.
#[derive(Debug)]
pub struct TurnTask {
    pub turn_id: u64,
    pub model: String,
    pub reasoning_effort: Option<String>,
    pub history: Vec<ChatMessage>,
    pub summary: Option<String>,
    pub policy: ContextPolicy,
}

/// The content of a [`TurnTask`].
#[verifier::ext_equal]
pub struct TurnTaskView {
    pub turn_id: u64,
    pub model: Seq<char>,
    pub reasoning_effort: Option<Seq<char>>,
    pub history: Seq<ChatMessageView>,
    pub summary: Option<Seq<char>>,
    pub policy: ContextPolicy,
}

impl View for TurnTask {
    type V = TurnTaskView;

    open spec fn view(&self) -> TurnTaskView {
        TurnTaskView {
            turn_id: self.turn_id,
            model: self.model@,
            reasoning_effort: crate::text::opt_text(self.reasoning_effort),
            history: crate::llm::types::message_views(self.history@),
            summary: crate::text::opt_text(self.summary),
            policy: self.policy,
        }
    }
}

/// A turn whose prompt is fitted to its budget.
#[derive(Debug)]
pub struct TurnPlan {
    pub turn_id: u64,
    pub model: String,
    pub reasoning_effort: Option<String>,
    /// The system prompt.
    pub system: Option<String>,
    /// The block of notes.
    pub memory: Option<String>,
    pub summary: Option<String>,
    /// The messages that are sent as they are.
    pub window: Vec<ChatMessage>,
    /// The messages that go into the summary.
    pub dropped: Vec<ChatMessage>,
}

/// The content of a [`TurnPlan`].
#[verifier::ext_equal]
pub struct TurnPlanView {
    pub turn_id: u64,
    pub model: Seq<char>,
    pub reasoning_effort: Option<Seq<char>>,
    pub system: Option<Seq<char>>,
    pub memory: Option<Seq<char>>,
    pub summary: Option<Seq<char>>,
    pub window: Seq<ChatMessageView>,
    pub dropped: Seq<ChatMessageView>,
}

impl View for TurnPlan {
    type V = TurnPlanView;

    open spec fn view(&self) -> TurnPlanView {
        TurnPlanView {
            turn_id: self.turn_id,
            model: self.model@,
            reasoning_effort: crate::text::opt_text(self.reasoning_effort),
            system: crate::text::opt_text(self.system),
            memory: crate::text::opt_text(self.memory),
            summary: crate::text::opt_text(self.summary),
            window: crate::llm::types::message_views(self.window@),
            dropped: crate::llm::types::message_views(self.dropped@),
        }
    }
}

/// The place of the last user message; -1 where there is none.
pub open spec fn last_user(h: Seq<ChatMessageView>) -> int
    decreases h.len(),
{
    if h.len() == 0 {
        -1
    } else if h.last().role == Role::User {
        h.len() - 1
    } else {
        last_user(h.drop_last())
    }
}

/// What the newest user message says.
pub open spec fn newest_question(h: Seq<ChatMessageView>) -> Seq<char> {
    if last_user(h) < 0 {
        Seq::empty()
    } else {
        h[last_user(h)].content
    }
}

/// A text that is there and not empty.
pub open spec fn filled(o: Option<Seq<char>>) -> Option<Seq<char>> {
    match o {
        Some(s) => if s.len() == 0 {
            None
        } else {
            Some(s)
        },
        None => None,
    }
}

/// The tokens of the blocks that stand before the window.
pub open spec fn injected(system: Option<Seq<char>>, memory: Option<Seq<char>>) -> u64 {
    let sum = crate::context::opt_estimate(filled(system)) + crate::context::opt_estimate(
        filled(memory),
    );
    if sum > u64::MAX {
        u64::MAX
    } else {
        sum as u64
    }
}

/// The plan of a turn.
pub open spec fn planned(
    t: TurnTaskView,
    system: Option<Seq<char>>,
    memory: Option<Seq<char>>,
) -> TurnPlanView {
    let w = crate::context::window_start(
        t.history,
        crate::context::window_budget(t.policy, filled(t.summary), injected(system, memory)),
    );
    TurnPlanView {
        turn_id: t.turn_id,
        model: t.model,
        reasoning_effort: t.reasoning_effort,
        system: system,
        memory: memory,
        summary: t.summary,
        window: t.history.skip(w),
        dropped: t.history.take(w),
    }
}

/// What the summary call of a plan is; none where nothing is dropped.
pub open spec fn plan_request(p: TurnPlanView) -> Option<ChatRequestView> {
    if p.dropped.len() == 0 {
        None
    } else {
        Some(crate::context::summary_call(p.model, filled(p.summary), p.dropped))
    }
}

/// The content of an optional request.
pub open spec fn opt_request(o: Option<ChatRequest>) -> Option<ChatRequestView> {
    match o {
        Some(r) => Some(r@),
        None => None,
    }
}

/// A plan whose dropped messages went into the summary.
pub open spec fn folded(p: TurnPlanView, reply: Option<Seq<CoreEventView>>) -> TurnPlanView {
    TurnPlanView {
        summary: Some(crate::context::summary_from(filled(p.summary), p.dropped, reply)),
        dropped: Seq::empty(),
        ..p
    }
}

/// The session once the dropped messages of a plan went into the summary.
pub open spec fn compacted(
    s: SessionView,
    p: TurnPlanView,
    reply: Option<Seq<CoreEventView>>,
) -> SessionView {
    SessionView {
        usage: crate::events::usage_sum(
            s.usage,
            crate::context::summary_usage(crate::events::no_usage(), reply),
        ),
        summary: folded(p, reply).summary,
        history: p.window,
        ..s
    }
}

/// The loop that a plan starts.
pub open spec fn started(p: TurnPlanView, tools: Seq<JsonView>, max_steps: u32) -> LoopView {
    LoopView {
        model: p.model,
        effort: p.reasoning_effort,
        tools: tools,
        max_steps: max_steps,
        left: if max_steps > 0 {
            max_steps
        } else {
            1
        },
        phase: Phase::Ready,
        messages: crate::context::prompt(
            filled(p.system),
            filled(p.memory),
            filled(p.summary),
            p.window,
        ),
        produced: seq![],
        total: crate::events::no_usage(),
        reported: false,
        text: seq![],
        thinking: seq![],
        calls: seq![],
    }
}

/// The slice of an optional string.
fn slice(o: &Option<String>) -> (r: Option<&str>)
    ensures
        crate::context::opt_str(r) == filled(crate::text::opt_text(*o)),
        r is Some <==> o is Some,
        r matches Some(s) ==> o matches Some(t) && s@ == t@,
{
    match o {
        Some(s) => Some(s.as_str()),
        None => None,
    }
}

/// The tokens of an optional block.
fn block_tokens(o: &Option<String>) -> (r: u64)
    ensures
        r == crate::context::opt_estimate(filled(crate::text::opt_text(*o))),
{
    match o {
        Some(s) => ContextPolicy::estimate_tokens(s.as_str()),
        None => 0,
    }
}

/// The place of the last user message.
pub(crate) fn find_last_user(history: &Vec<ChatMessage>) -> (r: Option<usize>)
    ensures
        r is None <==> last_user(crate::llm::types::message_views(history@)) < 0,
        r matches Some(i) ==> i == last_user(crate::llm::types::message_views(history@)) && i
            < history@.len() && history@[i as int].role == Role::User,
{
    let ghost h = crate::llm::types::message_views(history@);
    let mut i: usize = history.len();
    assert(h.take(i as int) =~= h);
    while i > 0
        invariant
            i <= history.len(),
            h == crate::llm::types::message_views(history@),
            last_user(h) == last_user(h.take(i as int)),
        decreases i,
    {
        assert(h.take(i as int).last() == h[i - 1]);
        assert(h.take(i as int).drop_last() =~= h.take(i - 1));
        if history[i - 1].role == Role::User {
            return Some(i - 1);
        }
        i = i - 1;
    }
    None
}

impl TurnTask {
    /// What the newest user message says; notes are chosen by it.
    pub fn query(&self) -> (r: String)
        ensures
            r@ == newest_question(self@.history),
    {
        match find_last_user(&self.history) {
            Some(i) => self.history[i].content.clone(),
            None => {
                let r = String::new();
                assert(r@ =~= Seq::<char>::empty());
                r
            },
        }
    }

    /// Fits the prompt to its budget: the system prompt and the block of notes
    /// count, and the oldest messages leave first.
    pub fn plan(self, system: Option<String>, memory: Option<String>) -> (r: TurnPlan)
        ensures
            r@ == planned(self@, crate::text::opt_text(system), crate::text::opt_text(memory)),
    {
        let tokens: u64 = block_tokens(&system).saturating_add(block_tokens(&memory));
        let (window, dropped) = split_window(
            self.policy,
            slice(&self.summary),
            tokens,
            &self.history,
        );
        TurnPlan {
            turn_id: self.turn_id,
            model: self.model,
            reasoning_effort: self.reasoning_effort,
            system,
            memory,
            summary: self.summary,
            window,
            dropped,
        }
    }
}

impl TurnPlan {
    /// The summary call that comes first, if messages were dropped.
    pub fn summary_request(&self) -> (r: Option<ChatRequest>)
        ensures
            opt_request(r) == plan_request(self@),
    {
        if self.dropped.len() == 0 {
            return None;
        }
        Some(summary_request(self.model.as_str(), slice(&self.summary), &self.dropped))
    }

    /// Folds the dropped messages into the summary, given the reply to the
    /// summary call, and lets the session keep the window only. False where
    /// the turn is no longer the session's: then nothing changes.
    pub fn fold(&mut self, session: &mut ChatSession, reply: &Option<Vec<CoreEvent>>) -> (r: bool)
        ensures
            r == crate::session::is_current(old(session)@, old(self)@.turn_id),
            r ==> final(self)@ == folded(old(self)@, crate::context::opt_events(*reply)),
            r ==> final(session)@ == compacted(
                old(session)@,
                old(self)@,
                crate::context::opt_events(*reply),
            ),
            !r ==> final(self)@ == old(self)@ && final(session)@ == old(session)@,
    {
        if !session.is_turn(self.turn_id) {
            return false;
        }
        let mut usage: Usage = Usage { input_tokens: None, output_tokens: None, total_tokens: None };
        let text = summarize(slice(&self.summary), &self.dropped, reply, &mut usage);
        session.compact(text.as_str(), &self.window, &usage);
        self.summary = Some(text);
        self.dropped = Vec::new();
        assert(self@.dropped =~= Seq::<ChatMessageView>::empty());
        true
    }

    /// The loop of the turn.
    pub fn start(self, tools: Vec<Json>, max_steps: u32) -> (r: TurnLoop)
        ensures
            r@ == started(self@, crate::json::views(tools@), max_steps),
            crate::agent::turn_loop::loop_inv(r@),
    {
        let messages = assemble(
            slice(&self.system),
            slice(&self.memory),
            slice(&self.summary),
            &self.window,
        );
        TurnLoop::new(
            self.model.as_str(),
            copy_opt(&self.reasoning_effort),
            tools,
            messages,
            max_steps,
        )
    }
}

} // verus!

//! What holds of every turn: what the model is asked, what is kept of what it
//! said, and that every tool call it makes is run.

use vstd::prelude::*;

use crate::agent::turn_loop::{
    after_all, emitted, react, LoopActionView, LoopInput, LoopInputView, LoopOutput, LoopView, Phase,
    TurnLoop, TurnOutcome,
};
use crate::error::{ApiErrorKind, ApiErrorView};
use crate::events::{CoreEventView, Usage};
use crate::llm::types::{ChatMessageView, Role, ToolCallView};

verus! {

/// The text of streamed events: their deltas, one after the other.
pub open spec fn said(es: Seq<CoreEventView>) -> Seq<char>
    decreases es.len(),
{
    if es.len() == 0 {
        Seq::empty()
    } else {
        said(es.drop_last()) + (match es.last() {
            CoreEventView::Delta { text } => text,
            _ => Seq::empty(),
        })
    }
}

/// The thinking of streamed events.
pub open spec fn thought(es: Seq<CoreEventView>) -> Seq<char>
    decreases es.len(),
{
    if es.len() == 0 {
        Seq::empty()
    } else {
        thought(es.drop_last()) + (match es.last() {
            CoreEventView::Reasoning { text } => text,
            _ => Seq::empty(),
        })
    }
}

/// The tool calls of streamed events, in the order in which they were made.
pub open spec fn requested(es: Seq<CoreEventView>) -> Seq<ToolCallView>
    decreases es.len(),
{
    if es.len() == 0 {
        Seq::empty()
    } else {
        match es.last() {
            CoreEventView::ToolCall { id, name, input } => requested(es.drop_last()).push(
                ToolCallView { id: id, name: name, arguments: input },
            ),
            _ => requested(es.drop_last()),
        }
    }
}

/// The streamed events that are passed on: all but the tool calls.
pub open spec fn passed_on(es: Seq<CoreEventView>) -> Seq<CoreEventView>
    decreases es.len(),
{
    if es.len() == 0 {
        Seq::empty()
    } else if es.last() is ToolCall {
        passed_on(es.drop_last())
    } else {
        passed_on(es.drop_last()).push(es.last())
    }
}

/// Whether none of the events ends the stream.
pub open spec fn open_ended(es: Seq<CoreEventView>) -> bool {
    forall|i: int|
        0 <= i < es.len() ==> !((#[trigger] es[i]) is TurnDone) && !(es[i] is Error)
}

/// A step begins and the model streams events.
pub open spec fn streamed(es: Seq<CoreEventView>) -> Seq<LoopInputView>
    decreases es.len(),
{
    if es.len() == 0 {
        seq![LoopInputView::Proceed { cancelled: false }]
    } else {
        streamed(es.drop_last()).push(
            LoopInputView::Event { event: es.last(), cancelled: false },
        )
    }
}

/// Where a turn stands after streamed events.
proof fn lemma_streamed(s: LoopView, es: Seq<CoreEventView>)
    requires
        s.phase == Phase::Ready,
        open_ended(es),
    ensures
        after_all(s, streamed(es)) == (LoopView {
            phase: Phase::Streaming,
            left: if s.left > 0 {
                (s.left - 1) as u32
            } else {
                0
            },
            text: said(es),
            thinking: thought(es),
            calls: requested(es),
            ..s
        }),
        emitted(s, streamed(es)) == passed_on(es),
    decreases es.len(),
{
    reveal_with_fuel(after_all, 2);
    reveal_with_fuel(emitted, 2);
    let inputs = streamed(es);
    if es.len() == 0 {
        assert(inputs.drop_last() =~= seq![]);
        assert(emitted(s, inputs) =~= passed_on(es));
        assert(after_all(s, inputs).text =~= said(es));
        assert(after_all(s, inputs).thinking =~= thought(es));
        assert(after_all(s, inputs).calls =~= requested(es));
    } else {
        let less = es.drop_last();
        assert forall|i: int| 0 <= i < less.len() implies !((#[trigger] less[i]) is TurnDone) && !(
        less[i] is Error) by {
            assert(less[i] == es[i]);
        }
        assert(!(es[es.len() - 1] is TurnDone));
        lemma_streamed(s, less);
        assert(inputs.drop_last() =~= streamed(less));
        let mid = after_all(s, streamed(less));
        let end = after_all(s, inputs);
        assert(end.text =~= said(es));
        assert(end.thinking =~= thought(es));
        assert(end.calls =~= requested(es));
        assert(emitted(s, inputs) =~= passed_on(es));
    }
}

/// At the start of a step the model is asked with the whole conversation so far,
/// with the turn's model and tools, and without an output cap.
pub proof fn model_is_asked_with_everything_so_far(s: LoopView)
    requires
        s.phase == Phase::Ready,
    ensures
        react(s, LoopInputView::Proceed { cancelled: false }).action matches LoopActionView::Ask(r)
            && r.model == s.model && r.messages == s.messages && r.tools == s.tools
            && r.max_tokens is None && (match s.effort {
            Some(e) => if crate::text::trim(e).len() > 0 {
                r.reasoning_effort == Some(e)
            } else {
                r.reasoning_effort is None
            },
            None => r.reasoning_effort is None,
        }),
        react(s, LoopInputView::Proceed { cancelled: false }).emit.len() == 0,
{
}

/// Whether a message is what the assistant said and thought in a step.
pub open spec fn is_answer(m: ChatMessageView, es: Seq<CoreEventView>) -> bool {
    &&& m.role == Role::Assistant
    &&& m.content == said(es)
    &&& m.reasoning == (if thought(es).len() == 0 {
        None
    } else {
        Some(thought(es))
    })
    &&& m.tool_calls is None
    &&& m.tool_call_id is None
    &&& m.artifacts.len() == 0
}

/// Whether a message is what the assistant said in a step with the tool calls it
/// made.
pub open spec fn is_tool_request(m: ChatMessageView, es: Seq<CoreEventView>) -> bool {
    &&& m.role == Role::Assistant
    &&& m.content == said(es)
    &&& m.tool_calls == Some(requested(es))
    &&& m.tool_call_id is None
}

/// A step in which the model calls no tool is the answer: the turn is completed,
/// and keeps everything that was said as one assistant message.
pub proof fn plain_step_is_the_answer(
    s: LoopView,
    es: Seq<CoreEventView>,
    usage: Option<Usage>,
    closed: bool,
)
    requires
        s.phase == Phase::Ready,
        open_ended(es),
        requested(es).len() == 0,
    ensures
        emitted(s, streamed(es)) == passed_on(es),
        ({
            let r = react(after_all(s, streamed(es)), stream_end(usage, closed));
            &&& r.state.phase == Phase::Over
            &&& r.action matches LoopActionView::Finish(f) && f.outcome == TurnOutcome::Completed
                && f.new_messages.len() == s.produced.len() + 1 && f.new_messages.drop_last()
                == s.produced && is_answer(f.new_messages.last(), es) && r.emit == seq![
                CoreEventView::TurnDone { usage: f.usage },
            ]
        }),
{
    lemma_streamed(s, es);
    let r = react(after_all(s, streamed(es)), stream_end(usage, closed));
    let kept = r.action->Finish_0.new_messages;
    assert(kept.drop_last() =~= s.produced);
}

/// How a stream ends: with a report, or by being closed.
pub open spec fn stream_end(usage: Option<Usage>, closed: bool) -> LoopInputView {
    if closed {
        LoopInputView::Closed
    } else {
        LoopInputView::Event { event: CoreEventView::TurnDone { usage: usage }, cancelled: false }
    }
}

/// A step in which the model calls tools is recorded with all of them, both in
/// what the model is sent next and in what is kept; then they are to be run.
pub proof fn tool_step_is_recorded(
    s: LoopView,
    es: Seq<CoreEventView>,
    usage: Option<Usage>,
    closed: bool,
)
    requires
        s.phase == Phase::Ready,
        open_ended(es),
        requested(es).len() > 0,
    ensures
        emitted(s, streamed(es)) == passed_on(es),
        ({
            let r = react(after_all(s, streamed(es)), stream_end(usage, closed));
            &&& r.state.phase == Phase::Calling
            &&& r.action is Again
            &&& r.emit.len() == 0
            &&& r.state.calls == requested(es)
            &&& r.state.messages.len() == s.messages.len() + 1
            &&& r.state.messages.drop_last() == s.messages
            &&& is_tool_request(r.state.messages.last(), es)
            &&& r.state.produced == s.produced.push(r.state.messages.last())
            &&& r.state.model == s.model && r.state.tools == s.tools && r.state.effort == s.effort
            &&& r.state.max_steps == s.max_steps
        }),
{
    lemma_streamed(s, es);
    let r = react(after_all(s, streamed(es)), stream_end(usage, closed));
    assert(r.state.messages.drop_last() =~= s.messages);
}

/// The results that tool calls brought, in their order.
pub open spec fn results(inputs: Seq<LoopInputView>) -> Seq<ChatMessageView>
    decreases inputs.len(),
{
    if inputs.len() == 0 {
        Seq::empty()
    } else {
        match inputs.last() {
            LoopInputView::ToolDone(m) => results(inputs.drop_last()).push(m),
            _ => results(inputs.drop_last()),
        }
    }
}

/// Whether nothing says that the turn was aborted.
pub open spec fn unbroken(inputs: Seq<LoopInputView>) -> bool {
    forall|i: int|
        0 <= i < inputs.len() ==> (#[trigger] inputs[i]) != (LoopInputView::Proceed {
            cancelled: true,
        })
}

/// Every tool call is run once, in the order in which the model made them, and
/// each result follows in the conversation: after `d` results, whatever else
/// happened meanwhile, the call that is run is the one at `d`.
pub proof fn every_call_is_run_in_order(s: LoopView, inputs: Seq<LoopInputView>)
    requires
        s.phase == Phase::Calling,
        unbroken(inputs),
        results(inputs).len() < s.calls.len(),
    ensures
        ({
            let t = after_all(s, inputs);
            let d = results(inputs).len() as int;
            &&& t.phase == Phase::Calling
            &&& t.calls == s.calls.skip(d)
            &&& t.messages == s.messages + results(inputs)
            &&& t.produced == s.produced + results(inputs)
            &&& t.left == s.left
            &&& t == (LoopView {
                calls: t.calls,
                messages: t.messages,
                produced: t.produced,
                ..s
            })
            &&& react(t, LoopInputView::Proceed { cancelled: false }).action
                == LoopActionView::RunTool(s.calls[d])
            &&& react(t, LoopInputView::Proceed { cancelled: false }).state == t
        }),
        emitted(s, inputs).len() == 0,
    decreases inputs.len(),
{
    if inputs.len() == 0 {
        assert(s.calls.skip(0) =~= s.calls);
        assert(s.messages + results(inputs) =~= s.messages);
        assert(s.produced + results(inputs) =~= s.produced);
    } else {
        let less = inputs.drop_last();
        assert forall|i: int| 0 <= i < less.len() implies (#[trigger] less[i]) != (
        LoopInputView::Proceed { cancelled: true }) by {
            assert(less[i] == inputs[i]);
        }
        assert(inputs[inputs.len() - 1] != (LoopInputView::Proceed { cancelled: true }));
        every_call_is_run_in_order(s, less);
        let t = after_all(s, inputs);
        let n = results(less).len() as int;
        if let LoopInputView::ToolDone(m) = inputs.last() {
            assert(s.calls.skip(n).skip(1) =~= s.calls.skip(n + 1));
            assert((s.messages + results(less)).push(m) =~= s.messages + results(inputs));
            assert((s.produced + results(less)).push(m) =~= s.produced + results(inputs));
        }
        assert(t.calls[0] == s.calls[results(inputs).len() as int]);
    }
}

/// When the last tool call of a step has its result, the model is asked again
/// with all the results as long as steps are left; else the turn says that it
/// reached its limit, and keeps everything that it gathered.
pub proof fn results_go_back_to_the_model(
    s: LoopView,
    inputs: Seq<LoopInputView>,
    m: ChatMessageView,
)
    requires
        s.phase == Phase::Calling,
        unbroken(inputs),
        results(inputs).len() == s.calls.len() - 1,
    ensures
        ({
            let r = react(after_all(s, inputs), LoopInputView::ToolDone(m));
            let gathered = results(inputs).push(m);
            if s.left > 0 {
                &&& r.action is Again
                &&& r.emit.len() == 0
                &&& r.state.phase == Phase::Ready
                &&& r.state.messages == s.messages + gathered
                &&& r.state.produced == s.produced + gathered
                &&& react(r.state, LoopInputView::Proceed { cancelled: false }).action matches
                    LoopActionView::Ask(q) && q.messages == s.messages + gathered
            } else {
                &&& r.state.phase == Phase::Over
                &&& r.action matches LoopActionView::Finish(f) && f.outcome
                    == TurnOutcome::Completed && f.new_messages.drop_last() == s.produced + gathered
                    && f.new_messages.last().role == Role::Assistant
                    && f.new_messages.last().tool_calls is None && f.new_messages.last().content
                    == "I reached my tool-call step limit ("@ + crate::text::decimal(
                    s.max_steps as nat,
                )
                    + ") without finishing. Here is what I gathered so far; ask me to continue if you want more."@
                    && r.emit == seq![
                    CoreEventView::Delta { text: f.new_messages.last().content },
                    CoreEventView::TurnDone { usage: f.usage },
                ]
            }
        }),
{
    every_call_is_run_in_order(s, inputs);
    let t = after_all(s, inputs);
    let d = results(inputs).len() as int;
    let gathered = results(inputs).push(m);
    assert(t.calls.skip(1).len() == 0);
    assert(t.messages.push(m) =~= s.messages + gathered);
    assert(t.produced.push(m) =~= s.produced + gathered);
    let r = react(t, LoopInputView::ToolDone(m));
    if s.left == 0 {
        assert(r.action->Finish_0.new_messages.drop_last() =~= s.produced + gathered);
    }
}

/// A provider that fails ends the turn at once: the failure is passed on as it
/// is, and what was produced before is handed back.
pub proof fn failure_is_passed_on(
    s: LoopView,
    kind: ApiErrorKind,
    message: Seq<char>,
    unreachable: bool,
)
    requires
        s.phase == Phase::Streaming,
    ensures
        ({
            let r = react(
                s,
                if unreachable {
                    LoopInputView::Unreachable(ApiErrorView { kind: kind, message: message })
                } else {
                    LoopInputView::Event {
                        event: CoreEventView::Error { kind: kind, message: message },
                        cancelled: false,
                    }
                },
            );
            &&& r.state.phase == Phase::Over
            &&& r.emit == seq![CoreEventView::Error { kind: kind, message: message }]
            &&& r.action matches LoopActionView::Finish(f) && f.outcome == TurnOutcome::Failed
                && f.new_messages == s.produced
        }),
{
}

/// An aborted turn ends quietly wherever it stands, with what it has produced:
/// no tool is run and the model is not asked.
pub proof fn abort_ends_quietly(s: LoopView, event: CoreEventView)
    requires
        s.phase != Phase::Over,
    ensures
        ({
            let r = react(
                s,
                if s.phase == Phase::Streaming {
                    LoopInputView::Event { event: event, cancelled: true }
                } else {
                    LoopInputView::Proceed { cancelled: true }
                },
            );
            &&& r.state.phase == Phase::Over
            &&& r.emit.len() == 0
            &&& r.action matches LoopActionView::Finish(f) && f.outcome == TurnOutcome::Completed
                && f.new_messages == s.produced
        }),
{
}

/// Whether a count is the sum of two, as far as they are known.
pub open spec fn adds_up(total: Option<u64>, a: Option<u64>, b: Option<u64>) -> bool {
    match (a, b) {
        (None, None) => total is None,
        (Some(x), None) => total == Some(x),
        (None, Some(y)) => total == Some(y),
        (Some(x), Some(y)) => total is Some && (x + y <= u64::MAX ==> total->0 == x + y),
    }
}

/// The usage of a turn is the sum of what was reported: a step that reports adds
/// its counts, a step that does not leaves them as they are.
pub proof fn usage_adds_up(s: LoopView, usage: Option<Usage>)
    requires
        s.phase == Phase::Streaming,
    ensures
        ({
            let r = react(
                s,
                LoopInputView::Event {
                    event: CoreEventView::TurnDone { usage: usage },
                    cancelled: false,
                },
            );
            match usage {
                None => r.state.total == s.total && r.state.reported == s.reported,
                Some(u) => r.state.reported && adds_up(
                    r.state.total.input_tokens,
                    s.total.input_tokens,
                    u.input_tokens,
                ) && adds_up(r.state.total.output_tokens, s.total.output_tokens, u.output_tokens)
                    && adds_up(r.state.total.total_tokens, s.total.total_tokens, u.total_tokens),
            }
        }),
        ({
            let r = react(
                s,
                LoopInputView::Event {
                    event: CoreEventView::TurnDone { usage: usage },
                    cancelled: false,
                },
            );
            r.action matches LoopActionView::Finish(f) ==> f.usage == (if r.state.reported {
                Some(r.state.total)
            } else {
                None
            })
        }),
{
}

/// What does not fit where a turn stands changes nothing: a result when no tool
/// is running, or an event when the model is not streaming.
pub proof fn nothing_happens_out_of_turn(s: LoopView, event: CoreEventView, m: ChatMessageView)
    ensures
        s.phase != Phase::Streaming ==> react(
            s,
            LoopInputView::Event { event: event, cancelled: false },
        ).state == s && react(s, LoopInputView::Event { event: event, cancelled: false }).emit.len()
            == 0 && react(s, LoopInputView::Event { event: event, cancelled: false }).action is Idle,
        s.phase != Phase::Calling ==> react(s, LoopInputView::ToolDone(m)).state == s && react(
            s,
            LoopInputView::ToolDone(m),
        ).action is Idle,
        s.phase == Phase::Streaming ==> react(
            s,
            LoopInputView::Proceed { cancelled: false },
        ).state == s && react(s, LoopInputView::Proceed { cancelled: false }).action is Idle,
{
}

/// A loop that has tool calls left runs the next of them: the one that the model
/// made first of those that were not run yet.
pub proof fn next_call_is_run_next(l: &mut TurnLoop, input: LoopInput, r: LoopOutput)
    requires
        call_ensures(TurnLoop::step, (l, input), r),
        input@ == (LoopInputView::Proceed { cancelled: false }),
        old(l)@.phase == Phase::Calling,
        old(l)@.calls.len() > 0,
    ensures
        r.action@ == LoopActionView::RunTool(old(l)@.calls[0]),
{
}

} // verus!

//! What a session does with a message: what is asked, what is kept of the answer,
//! and what the model is sent.

use vstd::prelude::*;

use crate::agent::turn_loop::{LoopResultView, Phase, TurnOutcome};
use crate::config::ConfigView;
use crate::context::{cost, estimate};
use crate::error::ApiErrorKind;
use crate::events::{usage_sum, ArtifactView, CoreEventView, Usage};
use crate::llm::types::{ChatMessageView, Role};
use crate::session::laws::{lemma_last_user, noted_all};
use crate::session::turn::{
    folded, injected, last_user, newest_question, plan_request, planned, started, TurnPlanView,
    TurnTaskView,
};
use crate::session::{
    aborted, finalized, first_line, fresh_turn, history_after, is_current, noted, opened,
    regenerate_outcome, send_outcome, title_from, turn_effort, turn_model, with_event, with_file,
    with_files, ActiveView, SessionView, TITLE_MAX_CHARS,
};

verus! {

/// A message that is sent is what is asked: it stands behind the history, with
/// its files, both in the session and in what the turn starts from, and the turn
/// runs with the session's model, effort and summary. Nothing else of the session
/// changes but its title, where it had none.
pub proof fn sent_message_is_asked(
    s: SessionView,
    c: ConfigView,
    message: Seq<char>,
    files: Seq<ArtifactView>,
)
    requires
        s.active is None,
        crate::text::trim(message).len() > 0,
        s.next_turn_id < u64::MAX,
    ensures
        ({
            let after = send_outcome(s, c, message, files).1;
            &&& send_outcome(s, c, message, files).0 matches Ok(t) && t.turn_id == s.next_turn_id
                && t.history == after.history && t.model == turn_model(s, c) && t.reasoning_effort
                == turn_effort(s, c) && t.summary == s.summary && t.policy.max_prompt_tokens
                == c.context.max_prompt_tokens
            &&& after.history.len() == s.history.len() + 1
            &&& after.history.drop_last() == s.history
            &&& after.history.last() == (ChatMessageView {
                role: Role::User,
                content: message,
                reasoning: None,
                tool_calls: None,
                tool_call_id: None,
                artifacts: files,
            })
            &&& after.active matches Some(a) && a.turn_id == s.next_turn_id && a.partial.len() == 0
                && a.reasoning.len() == 0 && a.artifacts.len() == 0 && a.buffer.len() == 0
            &&& after.next_turn_id == s.next_turn_id + 1
            &&& after.title == (match s.title {
                Some(t) => Some(t),
                None => Some(title_from(message)),
            })
            &&& after.id == s.id && after.summary == s.summary && after.usage == s.usage
                && after.created_at == s.created_at && after.updated_at == s.updated_at
                && after.model_override == s.model_override && after.effort_override
                == s.effort_override && after.store == s.store
        }),
{
    assert(send_outcome(s, c, message, files).1.history.drop_last() =~= s.history);
}

/// A blank message is refused as such, and one that comes while a turn is in
/// progress as coming too early; neither changes the session.
pub proof fn refused_message_changes_nothing(
    s: SessionView,
    c: ConfigView,
    message: Seq<char>,
    files: Seq<ArtifactView>,
)
    requires
        s.active is Some || crate::text::trim(message).len() == 0,
    ensures
        send_outcome(s, c, message, files).1 == s,
        send_outcome(s, c, message, files).0 matches Err(e) && e.kind == (if crate::text::trim(
            message,
        ).len() == 0 {
            ApiErrorKind::Config
        } else {
            ApiErrorKind::Busy
        }),
{
}

/// What a conversation chose for itself counts before what is configured.
pub proof fn own_choice_counts_first(s: SessionView, c: ConfigView)
    ensures
        s.model_override matches Some(m) ==> turn_model(s, c) == m,
        s.model_override is None ==> turn_model(s, c) == c.provider.model,
        s.effort_override matches Some(e) ==> turn_effort(s, c) == Some(e),
        s.effort_override is None && c.provider.reasoning_effort is None ==> turn_effort(
            s,
            c,
        ) is None,
        s.effort_override is None ==> (c.provider.reasoning_effort matches Some(e)
            ==> crate::text::trim(e).len() > 0 ==> turn_effort(s, c) == Some(crate::text::trim(e))),
{
}

/// The title of a conversation is the first line of its first message, without
/// white space around it; only a long one is cut, and a blank one gives a word
/// that says so.
pub proof fn title_is_the_first_line(line: Seq<char>, rest: Seq<char>)
    requires
        forall|i: int| 0 <= i < line.len() ==> #[trigger] line[i] != '\n' && line[i] != '\r',
    ensures
        line.len() > 0 ==> first_line(line) == line,
        first_line(line.push('\n') + rest) == line,
        ({
            let t = crate::text::trim(line);
            let title = title_from(line.push('\n') + rest);
            &&& 0 < t.len() <= 60 ==> title == t
            &&& t.len() > 60 ==> title == t.take(60).push('…')
            &&& t.len() == 0 ==> title == "untitled"@
        }),
        TITLE_MAX_CHARS == 60,
{
    let m = line.push('\n') + rest;
    let n = line.len() as int;
    assert(m[n] == '\n');
    assert forall|i: int| 0 <= i < n implies m[i] != '\n' by {
        assert(m[i] == line[i]);
    }
    crate::text::lemma_index_of_char(m, '\n', n);
    crate::text::lemma_index_of_char(line, '\n', n);
    assert(m.take(n) =~= line);
    if n > 0 {
        assert(line[n - 1] != '\r');
    }
    assert(crate::text::strip_cr(line) == line);
    assert(first_line(m) =~= line);
    reveal_strlit("untitled");
}

/// The last question can be asked again whenever the session is idle and something
/// came after it.
pub proof fn answered_question_can_be_asked_again(s: SessionView, c: ConfigView, u: int)
    requires
        s.active is None,
        0 <= u < s.history.len() - 1,
        s.history[u].role == Role::User,
        crate::text::trim(s.history[u].content).len() > 0,
        forall|i: int| u < i < s.history.len() ==> (#[trigger] s.history[i]).role != Role::User,
        s.next_turn_id < u64::MAX,
    ensures
        regenerate_outcome(s, c).0 matches Ok(t) && t.turn_id == s.next_turn_id && t.history
            == regenerate_outcome(s, c).1.history,
        regenerate_outcome(s, c).1.history.len() == u + 1,
        regenerate_outcome(s, c).1.history.take(u) == s.history.take(u),
        regenerate_outcome(s, c).1.history[u].content == s.history[u].content,
        regenerate_outcome(s, c).1.history[u].artifacts == s.history[u].artifacts,
        regenerate_outcome(s, c).1.history[u].role == Role::User,
        s.title is Some ==> regenerate_outcome(s, c).1.title == s.title,
{
    lemma_last_user(s.history);
    assert(last_user(s.history) == u);
    assert(regenerate_outcome(s, c).1.history.take(u) =~= s.history.take(u));
}

/// A session without an answer has nothing to ask again.
pub proof fn nothing_to_ask_again(s: SessionView, c: ConfigView)
    requires
        s.active is None,
        s.history.len() == 0 || s.history.last().role == Role::User || (forall|i: int|
            0 <= i < s.history.len() ==> (#[trigger] s.history[i]).role != Role::User),
    ensures
        regenerate_outcome(s, c).0 matches Err(e) && e.kind == ApiErrorKind::Config,
        regenerate_outcome(s, c).1 == s,
{
    lemma_last_user(s.history);
}

/// Where the last plain answer of a turn stands.
proof fn lemma_last_plain(m: Seq<ChatMessageView>)
    ensures
        -1 <= crate::session::last_plain(m) < m.len(),
        crate::session::last_plain(m) >= 0 ==> m[crate::session::last_plain(m)].role
            == Role::Assistant && m[crate::session::last_plain(m)].tool_calls is None,
        forall|i: int|
            crate::session::last_plain(m) < i < m.len() ==> !((#[trigger] m[i]).role
                == Role::Assistant && m[i].tool_calls is None),
    decreases m.len(),
{
    if m.len() > 0 && !(m.last().role == Role::Assistant && m.last().tool_calls is None) {
        lemma_last_plain(m.drop_last());
        assert forall|i: int| crate::session::last_plain(m) < i < m.len() implies !((
        #[trigger] m[i]).role == Role::Assistant && m[i].tool_calls is None) by {
            if i < m.len() - 1 {
                assert(m.drop_last()[i] == m[i]);
            }
        }
    }
}

/// The messages of a turn are kept as they are; only its last plain answer gets
/// the files that the turn produced.
pub proof fn only_the_answer_gets_files(m: Seq<ChatMessageView>, files: Seq<ArtifactView>, k: int)
    requires
        0 <= k < m.len(),
        m[k].role == Role::Assistant,
        m[k].tool_calls is None,
        forall|i: int|
            k < i < m.len() ==> !((#[trigger] m[i]).role == Role::Assistant && m[i].tool_calls
                is None),
    ensures
        with_files(m, files).len() == m.len(),
        forall|i: int| 0 <= i < m.len() && i != k ==> #[trigger] with_files(m, files)[i] == m[i],
        files.len() == 0 ==> with_files(m, files) == m,
        files.len() > 0 ==> with_files(m, files)[k] == (ChatMessageView { artifacts: files, ..m[k]
        }),
{
    lemma_last_plain(m);
    assert(crate::session::last_plain(m) == k);
}

/// A turn that is over leaves behind the history exactly what it produced; where
/// it produced nothing, what it had said; and only a question that failed without
/// a word is taken back.
pub proof fn what_a_turn_leaves(h: Seq<ChatMessageView>, a: ActiveView, r: LoopResultView)
    ensures
        r.new_messages.len() > 0 && a.artifacts.len() == 0 ==> history_after(h, a, r) == h
            + r.new_messages,
        r.new_messages.len() > 0 ==> history_after(h, a, r).len() == h.len() + r.new_messages.len()
            && history_after(h, a, r).take(h.len() as int) == h,
        r.new_messages.len() == 0 && a.partial.len() > 0 ==> history_after(h, a, r).len() == h.len()
            + 1 && history_after(h, a, r).take(h.len() as int) == h && history_after(
            h,
            a,
            r,
        ).last().role == Role::Assistant && history_after(h, a, r).last().content == a.partial
            && history_after(h, a, r).last().artifacts == a.artifacts && (a.reasoning.len() > 0
            ==> history_after(h, a, r).last().reasoning == Some(a.reasoning)),
        r.new_messages.len() == 0 && a.partial.len() == 0 ==> history_after(h, a, r) == (
        if r.outcome == TurnOutcome::Failed && h.len() > 0 && h.last().role == Role::User {
            h.take(h.len() - 1)
        } else {
            h
        }),
{
    lemma_last_plain(r.new_messages);
    let x = history_after(h, a, r);
    if r.new_messages.len() > 0 {
        assert(x.take(h.len() as int) =~= h);
    } else if a.partial.len() > 0 {
        assert(x.take(h.len() as int) =~= h);
    } else if x.len() < h.len() {
        assert(h.drop_last() =~= h.take(h.len() - 1));
    }
}

/// When a turn is over the session is idle again, has counted its usage and keeps
/// everything else as it was.
pub proof fn finished_turn_frees_the_session(s: SessionView, turn_id: u64, r: LoopResultView)
    requires
        s.active matches Some(a) && a.turn_id == turn_id,
    ensures
        ({
            let t = finalized(s, turn_id, r);
            &&& t.active is None
            &&& t.history == history_after(s.history, s.active->0, r)
            &&& r.usage is None ==> t.usage == s.usage
            &&& r.usage matches Some(u) ==> counted(t.usage, s.usage, u)
            &&& t.title == s.title && t.summary == s.summary && t.next_turn_id == s.next_turn_id
                && t.id == s.id && t.created_at == s.created_at && t.store == s.store
                && t.model_override == s.model_override && t.effort_override == s.effort_override
        }),
{
    if let Some(u) = r.usage {
        usage_is_counted(s.usage, u);
    }
}

/// A count, 0 where it is not known.
pub open spec fn known(n: Option<u64>) -> int {
    match n {
        Some(x) => x as int,
        None => 0,
    }
}

/// Whether usage is the sum of two reports, field by field, where nothing
/// overflows.
pub open spec fn counted(total: Usage, a: Usage, b: Usage) -> bool {
    &&& known(a.input_tokens) + known(b.input_tokens) <= u64::MAX ==> total.input_tokens == Some(
        (known(a.input_tokens) + known(b.input_tokens)) as u64,
    )
    &&& known(a.output_tokens) + known(b.output_tokens) <= u64::MAX ==> total.output_tokens
        == Some((known(a.output_tokens) + known(b.output_tokens)) as u64)
    &&& known(a.total_tokens) + known(b.total_tokens) <= u64::MAX ==> total.total_tokens == Some(
        (known(a.total_tokens) + known(b.total_tokens)) as u64,
    )
}

/// Usage adds up field by field; what is not known counts as nothing.
pub proof fn usage_is_counted(a: Usage, b: Usage)
    ensures
        counted(usage_sum(a, b), a, b),
{
}

/// The thinking of all events of a turn.
pub open spec fn thought(es: Seq<CoreEventView>) -> Seq<char>
    decreases es.len(),
{
    if es.len() == 0 {
        Seq::empty()
    } else {
        match es.last() {
            CoreEventView::Reasoning { text } => thought(es.drop_last()) + text,
            _ => thought(es.drop_last()),
        }
    }
}

/// A turn collects what was thought, and up to its capacity every event can be
/// replayed in order.
pub proof fn turn_collects_its_events(turn_id: u64, es: Seq<CoreEventView>)
    ensures
        noted_all(fresh_turn(turn_id), es).reasoning == thought(es),
        es.len() <= 4096 ==> noted_all(fresh_turn(turn_id), es).buffer == es,
        es.len() > 4096 ==> noted_all(fresh_turn(turn_id), es).buffer == es.skip(es.len() - 4096),
{
    lemma_thought(turn_id, es);
    crate::session::laws::late_subscriber_catches_up(turn_id, es);
}

proof fn lemma_thought(turn_id: u64, es: Seq<CoreEventView>)
    ensures
        noted_all(fresh_turn(turn_id), es).reasoning == thought(es),
    decreases es.len(),
{
    if es.len() > 0 {
        lemma_thought(turn_id, es.drop_last());
    }
}

/// An event or a file goes to the turn it belongs to; one of another turn changes
/// nothing. A file is shown as an event and kept for the answer.
pub proof fn events_go_to_their_turn(
    s: SessionView,
    turn_id: u64,
    e: CoreEventView,
    f: ArtifactView,
)
    ensures
        !is_current(s, turn_id) ==> with_event(s, turn_id, e) == s && with_file(s, turn_id, f) == s,
        is_current(s, turn_id) ==> with_event(s, turn_id, e) == (SessionView {
            active: Some(noted(s.active->0, e)),
            ..s
        }),
        is_current(s, turn_id) ==> (with_file(s, turn_id, f).active matches Some(a) && a.artifacts
            == s.active->0.artifacts.push(f) && a.partial == s.active->0.partial && (
        s.active->0.buffer.len() < 4096 ==> a.buffer == s.active->0.buffer.push(
            CoreEventView::Artifact { path: f.path, mime_hint: f.mime_hint },
        ))),
        s.active is None ==> !is_current(s, turn_id),
        s.active matches Some(a) ==> (is_current(s, turn_id) <==> a.turn_id == turn_id),
{
}

/// What an aborted turn had thought stays with what it had said.
pub proof fn abort_keeps_what_was_thought(s: SessionView)
    requires
        s.active matches Some(a) && a.partial.len() > 0,
    ensures
        aborted(s).history.last().reasoning == (if s.active->0.reasoning.len() == 0 {
            None
        } else {
            Some(s.active->0.reasoning)
        }),
        aborted(s).history.last().tool_calls is None,
        aborted(s).usage == s.usage && aborted(s).title == s.title && aborted(s).summary
            == s.summary && aborted(s).next_turn_id == s.next_turn_id,
{
}

/// A new session is empty and idle; a stored one continues where it was.
pub proof fn new_session_is_empty(id: Seq<char>, now: Seq<char>, store: Option<Seq<char>>)
    ensures
        ({
            let s = opened(id, now, store, None);
            &&& s.id == id && s.history.len() == 0 && s.summary is None && s.title is None
            &&& s.active is None && s.store == store && s.created_at == now && s.updated_at == now
            &&& s.model_override is None && s.effort_override is None
        }),
{
}

/// Notes are chosen by the newest question: the content of the last user message.
pub proof fn newest_question_is_the_last(h: Seq<ChatMessageView>, u: int)
    requires
        0 <= u < h.len(),
        h[u].role == Role::User,
        forall|i: int| u < i < h.len() ==> (#[trigger] h[i]).role != Role::User,
    ensures
        newest_question(h) == h[u].content,
{
    lemma_last_user(h);
    assert(last_user(h) == u);
}

/// The tokens of a text that is there.
pub open spec fn tokens(o: Option<Seq<char>>) -> nat {
    match o {
        Some(t) => if t.len() == 0 {
            0
        } else {
            estimate(t)
        },
        None => 0,
    }
}

/// A prompt keeps to its budget: the fixed blocks, the summary and the window
/// together cost no more, unless the newest message is all that the window holds.
pub proof fn prompt_keeps_to_its_budget(
    t: TurnTaskView,
    system: Option<Seq<char>>,
    memory: Option<Seq<char>>,
)
    requires
        planned(t, system, memory).window.len() > 1,
        tokens(system) + tokens(memory) <= u64::MAX,
    ensures
        cost(planned(t, system, memory).window) > 0 ==> tokens(system) + tokens(memory) + tokens(
            t.summary,
        ) + cost(planned(t, system, memory).window) <= t.policy.max_prompt_tokens,
        planned(t, system, memory).window[0].role == Role::User,
{
    let budget = crate::context::window_budget(
        t.policy,
        crate::session::turn::filled(t.summary),
        injected(system, memory),
    );
    crate::context::window_is_the_newest_part(t.history, budget);
    crate::context::window_has_what_is_left(
        t.policy,
        crate::session::turn::filled(t.summary),
        injected(system, memory),
    );
}

/// Nothing is dropped where everything fits: then there is no summary call, and
/// the whole history is sent.
pub proof fn fitting_history_is_sent_whole(
    t: TurnTaskView,
    system: Option<Seq<char>>,
    memory: Option<Seq<char>>,
)
    requires
        t.history.len() > 0,
        t.history[0].role == Role::User,
        tokens(system) + tokens(memory) <= u64::MAX,
        tokens(system) + tokens(memory) + tokens(t.summary) + cost(t.history)
            <= t.policy.max_prompt_tokens,
    ensures
        planned(t, system, memory).window == t.history,
        planned(t, system, memory).dropped.len() == 0,
        plan_request(planned(t, system, memory)) is None,
{
    let budget = crate::context::window_budget(
        t.policy,
        crate::session::turn::filled(t.summary),
        injected(system, memory),
    );
    crate::context::window_has_what_is_left(
        t.policy,
        crate::session::turn::filled(t.summary),
        injected(system, memory),
    );
    let w = crate::context::window_start(t.history, budget);
    crate::context::window_is_the_newest_part(t.history, budget);
    if w > 0 {
        crate::context::window_is_maximal(t.history, budget, 0);
        assert(t.history.skip(0) =~= t.history);
    }
    assert(t.history.skip(0) =~= t.history);
}

/// A plan is made for its turn: its model, its effort and the blocks it is given.
/// Where messages are dropped, the summary call is about just those.
pub proof fn plan_is_for_its_turn(
    t: TurnTaskView,
    system: Option<Seq<char>>,
    memory: Option<Seq<char>>,
)
    ensures
        ({
            let p = planned(t, system, memory);
            &&& p.turn_id == t.turn_id && p.model == t.model && p.reasoning_effort
                == t.reasoning_effort && p.system == system && p.memory == memory && p.summary
                == t.summary
            &&& p.dropped.len() == 0 <==> plan_request(p) is None
            &&& plan_request(p) matches Some(r) ==> r.model == t.model && r.tools.len() == 0
                && r.messages.len() == 2 && r.messages[1].content.len()
                >= crate::context::transcript(p.dropped).len() && r.messages[1].content.skip(
                r.messages[1].content.len() - crate::context::transcript(p.dropped).len(),
            ) == crate::context::transcript(p.dropped)
        }),
{
    let p = planned(t, system, memory);
    crate::context::summary_call_carries_what_is_dropped(
        p.model,
        crate::session::turn::filled(p.summary),
        p.dropped,
    );
}

/// A loop starts with the plan's model, effort and tools, with as many steps as
/// are allowed and at least one, and with the fixed blocks before the window.
pub proof fn loop_starts_from_its_plan(
    p: TurnPlanView,
    tools: Seq<crate::json::JsonView>,
    max_steps: u32,
)
    ensures
        ({
            let l = started(p, tools, max_steps);
            &&& l.model == p.model && l.effort == p.reasoning_effort && l.tools == tools
            &&& l.phase == Phase::Ready
            &&& l.max_steps == max_steps
            &&& max_steps > 0 ==> l.left == max_steps
            &&& max_steps == 0 ==> l.left == 1
            &&& l.produced.len() == 0 && !l.reported
            &&& l.messages.len() >= p.window.len()
            &&& l.messages.skip(l.messages.len() - p.window.len()) == p.window
            &&& p.system matches Some(t) ==> t.len() > 0 ==> l.messages[0].role == Role::System
                && l.messages[0].content == t
        }),
{
    crate::context::prompt_ends_with_the_window(
        crate::session::turn::filled(p.system),
        crate::session::turn::filled(p.memory),
        crate::session::turn::filled(p.summary),
        p.window,
    );
}

/// Folding puts the dropped messages into the summary and leaves the window and
/// everything else of the plan as it is.
pub proof fn folding_keeps_the_window(p: TurnPlanView, reply: Option<Seq<CoreEventView>>)
    ensures
        folded(p, reply).window == p.window,
        folded(p, reply).dropped.len() == 0,
        folded(p, reply).summary is Some,
        folded(p, reply).model == p.model && folded(p, reply).system == p.system && folded(
            p,
            reply,
        ).memory == p.memory && folded(p, reply).reasoning_effort == p.reasoning_effort && folded(
            p,
            reply,
        ).turn_id == p.turn_id,
{
}

} // verus!

//! What holds of a session over several operations.

use vstd::prelude::*;

use crate::agent::turn_loop::{LoopResultView, TurnOutcome};
use crate::config::ConfigView;
use crate::events::{ArtifactView, CoreEventView};
use crate::llm::types::Role;
use crate::session::turn::{
    compacted, folded, last_user, planned, started, TurnPlanView, TurnTaskView,
};
use crate::session::{
    aborted, conversation_of, finalized, fresh_turn, is_current, noted, opened, question,
    regenerate_outcome, send_outcome, sent, session_inv, title_from, ActiveView, SessionView,
    TITLE_MAX_CHARS,
};

verus! {

/// While a turn is in progress, sending and regenerating fail and leave the
/// session as it is.
pub proof fn busy_session_is_left_alone(
    s: SessionView,
    c: ConfigView,
    message: Seq<char>,
    files: Seq<ArtifactView>,
)
    requires
        s.active is Some,
    ensures
        send_outcome(s, c, message, files).0 is Err,
        send_outcome(s, c, message, files).1 == s,
        regenerate_outcome(s, c).0 is Err,
        regenerate_outcome(s, c).1 == s,
{
}

/// What a turn brought goes into the history once: after an abort its result
/// changes nothing, and after its result neither an abort nor a second result
/// does.
pub proof fn turn_is_flushed_once(
    s: SessionView,
    turn_id: u64,
    first: LoopResultView,
    second: LoopResultView,
)
    requires
        is_current(s, turn_id),
    ensures
        finalized(aborted(s), turn_id, first) == aborted(s),
        aborted(finalized(s, turn_id, first)) == finalized(s, turn_id, first),
        finalized(finalized(s, turn_id, first), turn_id, second) == finalized(s, turn_id, first),
        aborted(aborted(s)) == aborted(s),
{
}

/// The result of an aborted turn does not reach the turn that came after it.
pub proof fn late_result_is_ignored(
    s: SessionView,
    turn_id: u64,
    message: Seq<char>,
    files: Seq<ArtifactView>,
    late: LoopResultView,
)
    requires
        session_inv(s),
        is_current(s, turn_id),
        s.next_turn_id < u64::MAX,
    ensures
        finalized(sent(aborted(s), message, files), turn_id, late) == sent(
            aborted(s),
            message,
            files,
        ),
{
}

/// Turn ids increase: the turn that a send starts has the next id, and the one
/// after it a larger one.
pub proof fn turn_ids_increase(
    s: SessionView,
    c: ConfigView,
    message: Seq<char>,
    files: Seq<ArtifactView>,
)
    requires
        s.next_turn_id < u64::MAX,
        send_outcome(s, c, message, files).0 is Ok,
    ensures
        send_outcome(s, c, message, files).0->Ok_0.turn_id == s.next_turn_id,
        send_outcome(s, c, message, files).1.next_turn_id > s.next_turn_id,
        is_current(send_outcome(s, c, message, files).1, s.next_turn_id),
        session_inv(send_outcome(s, c, message, files).1),
{
}

/// A turn that fails without a word takes its question back, so that it can be
/// sent again.
pub proof fn failed_turn_takes_its_question_back(
    s: SessionView,
    message: Seq<char>,
    files: Seq<ArtifactView>,
    r: LoopResultView,
)
    requires
        r.outcome == TurnOutcome::Failed,
        r.new_messages.len() == 0,
        s.next_turn_id < u64::MAX,
    ensures
        finalized(sent(s, message, files), s.next_turn_id, r).history == s.history,
        finalized(sent(s, message, files), s.next_turn_id, r).active is None,
{
    assert(s.history.push(question(message, files)).drop_last() =~= s.history);
}

/// A turn that finishes leaves its question and what its loop produced, in their
/// order, and its files on the last plain answer.
pub proof fn finished_turn_is_kept(
    s: SessionView,
    message: Seq<char>,
    files: Seq<ArtifactView>,
    es: Seq<CoreEventView>,
    r: LoopResultView,
)
    requires
        r.new_messages.len() > 0,
        s.next_turn_id < u64::MAX,
    ensures
        ({
            let turn = noted_all(fresh_turn(s.next_turn_id), es);
            let running = SessionView { active: Some(turn), ..sent(s, message, files) };
            let after = finalized(running, s.next_turn_id, r);
            &&& after.active is None
            &&& after.history == s.history.push(question(message, files))
                + crate::session::with_files(r.new_messages, turn.artifacts)
        }),
{
    late_subscriber_catches_up(s.next_turn_id, es);
}

/// What an aborted turn had said stays in the history, with the files it had
/// produced; a turn that had said nothing leaves its question.
pub proof fn abort_keeps_what_was_said(s: SessionView)
    requires
        s.active is Some,
    ensures
        aborted(s).active is None,
        s.active->Some_0.partial.len() == 0 ==> aborted(s).history == s.history,
        s.active->Some_0.partial.len() > 0 ==> {
            &&& aborted(s).history.len() == s.history.len() + 1
            &&& aborted(s).history.drop_last() == s.history
            &&& aborted(s).history.last().role == Role::Assistant
            &&& aborted(s).history.last().content == s.active->Some_0.partial
            &&& aborted(s).history.last().artifacts == s.active->Some_0.artifacts
        },
{
    if s.active->Some_0.partial.len() > 0 {
        assert(aborted(s).history.drop_last() =~= s.history);
    }
}

/// Where the last user message stands.
pub(crate) proof fn lemma_last_user(h: Seq<crate::llm::types::ChatMessageView>)
    ensures
        -1 <= last_user(h) < h.len(),
        last_user(h) >= 0 ==> h[last_user(h)].role == Role::User,
        forall|i: int| last_user(h) < i < h.len() ==> (#[trigger] h[i]).role != Role::User,
    decreases h.len(),
{
    if h.len() > 0 && h.last().role != Role::User {
        lemma_last_user(h.drop_last());
        assert forall|i: int| last_user(h) < i < h.len() implies (#[trigger] h[i]).role
            != Role::User by {
            if i < h.len() - 1 {
                assert(h.drop_last()[i] == h[i]);
            }
        }
    }
}

/// Regenerating asks the last question again, attachments and all: what stood
/// before it is untouched, and what came after it is gone.
pub proof fn regenerate_asks_the_same(s: SessionView, c: ConfigView)
    requires
        regenerate_outcome(s, c).0 is Ok,
    ensures
        ({
            let u = last_user(s.history);
            let after = regenerate_outcome(s, c).1.history;
            &&& 0 <= u < s.history.len() - 1
            &&& after.len() == u + 1
            &&& after.take(u) == s.history.take(u)
            &&& after[u].role == s.history[u].role
            &&& after[u].content == s.history[u].content
            &&& after[u].artifacts == s.history[u].artifacts
            &&& regenerate_outcome(s, c).0->Ok_0.history == after
        }),
{
    lemma_last_user(s.history);
    let u = last_user(s.history);
    assert(regenerate_outcome(s, c).1.history.take(u) =~= s.history.take(u));
}

/// Compaction loses no message in between: what is dropped and what is kept are
/// the history, and the newest message is always sent.
pub proof fn plan_covers_the_history(
    t: TurnTaskView,
    system: Option<Seq<char>>,
    memory: Option<Seq<char>>,
)
    requires
        t.history.len() > 0,
    ensures
        planned(t, system, memory).dropped + planned(t, system, memory).window == t.history,
        planned(t, system, memory).window.len() > 0,
        planned(t, system, memory).window.last() == t.history.last(),
{
    crate::context::window_is_sound(
        t.history,
        crate::context::window_budget(
            t.policy,
            crate::session::turn::filled(t.summary),
            crate::session::turn::injected(system, memory),
        ),
    );
}

/// After a compaction the session holds what the model is sent: the same
/// window and the same summary.
pub proof fn compaction_matches_the_prompt(
    s: SessionView,
    p: TurnPlanView,
    reply: Option<Seq<CoreEventView>>,
    tools: Seq<crate::json::JsonView>,
    max_steps: u32,
)
    ensures
        compacted(s, p, reply).history == p.window,
        started(folded(p, reply), tools, max_steps).messages == crate::context::prompt(
            crate::session::turn::filled(p.system),
            crate::session::turn::filled(p.memory),
            crate::session::turn::filled(compacted(s, p, reply).summary),
            compacted(s, p, reply).history,
        ),
{
}

/// A session that is stored and opened again has its history, summary, usage
/// and title.
pub proof fn reopened_session_is_restored(s: SessionView, now: Seq<char>)
    ensures
        ({
            let t = opened(s.id, now, s.store, Some(conversation_of(s)));
            &&& t.id == s.id
            &&& t.history == s.history
            &&& t.summary == s.summary
            &&& t.usage == s.usage
            &&& t.title == s.title
            &&& t.created_at == s.created_at
            &&& t.active is None
            &&& session_inv(t)
        }),
{
}

/// A turn after several of its events.
pub open spec fn noted_all(a: ActiveView, es: Seq<CoreEventView>) -> ActiveView
    decreases es.len(),
{
    if es.len() == 0 {
        a
    } else {
        noted(noted_all(a, es.drop_last()), es.last())
    }
}

/// The text of all deltas of a list of events.
pub open spec fn said(es: Seq<CoreEventView>) -> Seq<char>
    decreases es.len(),
{
    if es.len() == 0 {
        Seq::empty()
    } else {
        match es.last() {
            CoreEventView::Delta { text } => said(es.drop_last()) + text,
            _ => said(es.drop_last()),
        }
    }
}

/// A subscriber that comes late gets the newest events of the turn in their
/// order, and an abort keeps all that was said.
pub proof fn late_subscriber_catches_up(turn_id: u64, es: Seq<CoreEventView>)
    ensures
        noted_all(fresh_turn(turn_id), es).buffer == crate::events::newest(
            es,
            crate::events::TURN_BUFFER_CAPACITY as int,
        ),
        noted_all(fresh_turn(turn_id), es).partial == said(es),
        noted_all(fresh_turn(turn_id), es).turn_id == turn_id,
{
    lemma_noted(turn_id, es);
    crate::events::buffer_keeps_the_newest(es);
}

proof fn lemma_noted(turn_id: u64, es: Seq<CoreEventView>)
    ensures
        noted_all(fresh_turn(turn_id), es).buffer == crate::events::buffered(Seq::empty(), es),
        noted_all(fresh_turn(turn_id), es).partial == said(es),
        noted_all(fresh_turn(turn_id), es).turn_id == turn_id,
    decreases es.len(),
{
    if es.len() > 0 {
        lemma_noted(turn_id, es.drop_last());
    }
}

/// A title is never empty and never long.
pub proof fn title_is_bounded(message: Seq<char>)
    ensures
        0 < title_from(message).len() <= TITLE_MAX_CHARS + 1,
{
    reveal_strlit("untitled");
}

} // verus!

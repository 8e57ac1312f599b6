//! What the calls of a turn return and leave behind, from the message of the user
//! to what is kept of the answer.

use vstd::prelude::*;

use crate::agent::reflect::digest::with_reflect_tag;
use crate::agent::tool_call::{CallAction, FinishedCall, ToolRun};
use crate::agent::turn_loop::LoopResult;
use crate::agent::workers::{WorkerSpec, Workers};
use crate::audit::{AuditEntry, AuditLog};
use crate::config::Config;
use crate::context::{assemble, opt_str, summary_request, transcript};
use crate::error::ApiError;
use crate::events::{
    count_of, ApprovalKind, Artifact, CoreEvent, CoreEventView, Decision, EventStream, LiveItem,
    Polled, Risk, Usage,
};
use crate::llm::types::{message_views, ChatMessage, ChatRequest, Role, ToolCall};
use crate::memory::inject::memory_block;
use crate::memory::store::{parse_note, MemoryNote, MemoryStore};
use crate::sandbox::exec::CappedOutput;
use crate::sandbox::workspace::{EntryKind, FileStamp, Scan, Visit, MAX_SCAN_ENTRIES};
use crate::session::registry::ConversationRegistry;
use crate::session::turn::TurnTask;
use crate::session::ChatSession;
use crate::text::{texts, trim};

verus! {

/// A message that is sent to a free session is its newest question, unchanged,
/// and the turn that answers it is the one that was begun.
pub proof fn sent_message_becomes_the_question(
    s: &mut ChatSession,
    message: &str,
    config: &Config,
    r: Result<TurnTask, ApiError>,
)
    requires
        call_ensures(ChatSession::send, (s, message, config), r),
        old(s)@.active is None,
        trim(message@).len() > 0,
        old(s)@.next_turn_id < u64::MAX,
    ensures
        final(s)@.history.drop_last() == old(s)@.history,
        final(s)@.history.len() == old(s)@.history.len() + 1,
        final(s)@.history.last().role == Role::User,
        final(s)@.history.last().content == message@,
        r matches Ok(t) && t@.history == final(s)@.history && (final(s)@.active matches Some(a)
            && a.turn_id == t@.turn_id),
{
    crate::session::turn_laws::sent_message_is_asked(
        old(s)@,
        config@,
        message@,
        Seq::empty(),
    );
}

/// A session that is busy, and a message that says nothing, change nothing.
pub proof fn refused_send_changes_nothing(
    s: &mut ChatSession,
    message: &str,
    config: &Config,
    r: Result<TurnTask, ApiError>,
)
    requires
        call_ensures(ChatSession::send, (s, message, config), r),
        old(s)@.active is Some || trim(message@).len() == 0,
    ensures
        r is Err,
        final(s)@ == old(s)@,
{
    crate::session::turn_laws::refused_message_changes_nothing(
        old(s)@,
        config@,
        message@,
        Seq::empty(),
    );
}

/// What an attachment is sent with goes with the question.
pub proof fn attachments_go_with_the_question(
    s: &mut ChatSession,
    message: &str,
    attachments: Vec<Artifact>,
    config: &Config,
    r: Result<TurnTask, ApiError>,
)
    requires
        call_ensures(ChatSession::send_with_attachments, (s, message, attachments, config), r),
        old(s)@.active is None,
        trim(message@).len() > 0,
        old(s)@.next_turn_id < u64::MAX,
    ensures
        final(s)@.history.last().content == message@,
        final(s)@.history.last().artifacts == crate::events::artifact_views(attachments@),
{
    crate::session::turn_laws::sent_message_is_asked(
        old(s)@,
        config@,
        message@,
        crate::events::artifact_views(attachments@),
    );
}

/// A turn that ends gives the session back; the result of a turn that is over is
/// dropped.
pub proof fn finished_turn_gives_the_session_back(
    s: &mut ChatSession,
    turn_id: u64,
    result: LoopResult,
    r: bool,
)
    requires
        call_ensures(ChatSession::finalize_turn, (s, turn_id, result), r),
    ensures
        r <==> (old(s)@.active matches Some(a) && a.turn_id == turn_id),
        r ==> final(s)@.active is None,
        !r ==> final(s)@ == old(s)@,
        r && result@.new_messages.len() > 0 && old(s)@.active->0.artifacts.len() == 0
            ==> final(s)@.history == old(s)@.history + result@.new_messages,
{
    if r {
        crate::session::turn_laws::finished_turn_frees_the_session(old(s)@, turn_id, result@);
        crate::session::turn_laws::what_a_turn_leaves(
            old(s)@.history,
            old(s)@.active->0,
            result@,
        );
    }
}

/// An abort ends the turn and keeps what was said of the answer.
pub proof fn abort_ends_the_turn(s: &mut ChatSession, r: Option<CoreEvent>)
    requires
        call_ensures(ChatSession::abort, (s,), r),
        old(s)@.active is Some,
    ensures
        r is Some,
        final(s)@.active is None,
        old(s)@.active->0.partial.len() == 0 ==> final(s)@.history == old(s)@.history,
        old(s)@.active->0.partial.len() > 0 ==> final(s)@.history.drop_last() == old(s)@.history
            && final(s)@.history.last().role == Role::Assistant
            && final(s)@.history.last().content == old(s)@.active->0.partial,
{
    crate::session::laws::abort_keeps_what_was_said(old(s)@);
}

/// An event of the turn is kept as the newest one, and a text of it is added to
/// what was said; an event of another turn changes nothing.
pub proof fn event_is_kept(s: &mut ChatSession, turn_id: u64, event: &CoreEvent, r: bool)
    requires
        call_ensures(ChatSession::record, (s, turn_id, event), r),
    ensures
        r <==> (old(s)@.active matches Some(a) && a.turn_id == turn_id),
        !r ==> final(s)@ == old(s)@,
        r ==> final(s)@.active is Some && final(s)@.active->0.buffer.last() == event@ && (match event@ {
            CoreEventView::Delta { text } => final(s)@.active->0.partial
                == old(s)@.active->0.partial + text,
            _ => final(s)@.active->0.partial == old(s)@.active->0.partial,
        }),
        final(s)@.history == old(s)@.history,
{
    crate::session::turn_laws::events_go_to_their_turn(
        old(s)@,
        turn_id,
        event@,
        crate::events::ArtifactView { path: Seq::empty(), mime_hint: None },
    );
}

/// A file that a tool made belongs to the turn, and the user is told of it.
pub proof fn file_belongs_to_the_turn(
    s: &mut ChatSession,
    turn_id: u64,
    artifact: Artifact,
    r: Option<CoreEvent>,
)
    requires
        call_ensures(ChatSession::record_artifact, (s, turn_id, artifact), r),
        old(s)@.active matches Some(a) && a.turn_id == turn_id,
    ensures
        r matches Some(e) && e@ == (CoreEventView::Artifact {
            path: artifact@.path,
            mime_hint: artifact@.mime_hint,
        }),
        final(s)@.active is Some,
        final(s)@.active->0.artifacts == old(s)@.active->0.artifacts.push(artifact@),
{
}

/// A request for consent is shown with what it asks for and what it is about, and
/// it waits.
pub proof fn consent_is_asked_for(
    s: &mut ChatSession,
    turn_id: u64,
    kind: ApprovalKind,
    summary: &str,
    r: Option<(String, CoreEvent)>,
)
    requires
        call_ensures(ChatSession::request_approval, (s, turn_id, kind, summary), r),
        old(s)@.active matches Some(a) && a.turn_id == turn_id,
    ensures
        match r {
            Some((id, event)) => event@ == (CoreEventView::ApprovalRequest {
                id: id@,
                kind: kind@,
                summary: summary@,
            }) && final(s)@.active is Some && crate::session::approvals::waits(
                final(s)@.active->0.approvals,
                id@,
            ),
            None => false,
        },
{
}

/// A decision is the outcome of its request, and it is taken only by a request
/// that waits.
pub proof fn decision_is_the_outcome(
    s: &mut ChatSession,
    request_id: &str,
    decision: Decision,
    r: Result<(), ApiError>,
)
    requires
        call_ensures(ChatSession::approve, (s, request_id, decision), r),
    ensures
        match old(s)@.active {
            Some(a) => r is Ok <==> crate::session::approvals::waits(a.approvals, request_id@),
            None => r is Err,
        },
        r is Ok ==> final(s)@.active is Some && crate::session::approvals::outcome(
            final(s)@.active->0.approvals,
            request_id@,
        ) == decision,
        r is Err ==> final(s)@ == old(s)@,
{
}

/// A request that waits, or that nobody made, is denied.
pub proof fn silence_is_no_consent(
    s: &mut ChatSession,
    turn_id: u64,
    request_id: &str,
    r: Decision,
)
    requires
        call_ensures(ChatSession::settle_approval, (s, turn_id, request_id), r),
    ensures
        r == Decision::Allow ==> (old(s)@.active matches Some(a) && a.turn_id == turn_id
            && a.approvals.asked.dom().contains(request_id@) && a.approvals.asked[request_id@]
            == Some(Decision::Allow)),
{
}

/// What a session is saved as goes to its own file.
pub proof fn session_is_saved_in_its_file(
    s: &ChatSession,
    now: &str,
    r: Option<Result<(String, String), ApiError>>,
)
    requires
        call_ensures(ChatSession::persist, (s, now), r),
    ensures
        match (s@.store, r) {
            (Some(dir), Some(Ok(f))) => f.0@ == crate::paths::joined(dir, s@.id + ".json"@),
            (Some(_), Some(Err(_))) => !crate::conversations::valid_id(s@.id),
            (None, None) => true,
            _ => false,
        },
{
}

/// A prompt ends with the window, each message of it in its order.
pub proof fn window_is_sent(
    system: Option<&str>,
    memory: Option<&str>,
    summary: Option<&str>,
    window: &Vec<ChatMessage>,
    r: Vec<ChatMessage>,
)
    requires
        call_ensures(assemble, (system, memory, summary, window), r),
    ensures
        r@.len() >= window@.len(),
        message_views(r@).skip(r@.len() - window@.len()) == message_views(window@),
        match opt_str(system) {
            Some(t) => r@.len() > 0 && message_views(r@)[0].role == Role::System,
            None => true,
        },
{
    crate::context::prompt_ends_with_the_window(
        opt_str(system),
        opt_str(memory),
        opt_str(summary),
        message_views(window@),
    );
    assert(message_views(r@).len() == r@.len());
    assert(message_views(window@).len() == window@.len());
}

/// Whoever is asked for a summary is shown everything that is dropped.
pub proof fn summary_is_asked_of_what_is_dropped(
    model: &str,
    previous: Option<&str>,
    dropped: &Vec<ChatMessage>,
    r: ChatRequest,
)
    requires
        call_ensures(summary_request, (model, previous, dropped), r),
    ensures
        ({
            let text = transcript(message_views(dropped@));
            &&& r@.model == model@
            &&& r@.messages.len() == 2
            &&& r@.messages[1].content.len() >= text.len()
            &&& r@.messages[1].content.skip(r@.messages[1].content.len() - text.len()) == text
        }),
{
    crate::context::summary_call_carries_what_is_dropped(
        model@,
        opt_str(previous),
        message_views(dropped@),
    );
}

/// A worker is asked with its own instructions and the content, unchanged, and
/// without tools.
pub proof fn worker_is_asked_with_the_content(w: &WorkerSpec, content: &str, r: ChatRequest)
    requires
        call_ensures(WorkerSpec::request, (w, content), r),
    ensures
        r@.model == w@.model,
        r@.messages.len() == 2,
        r@.messages[0].content == w@.system,
        r@.messages[1].role == Role::User,
        r@.messages[1].content == content@,
        r@.tools.len() == 0,
{
    crate::agent::call_laws::worker_gets_the_content(w@, content@);
}

/// A worker is found under its own name only.
pub proof fn worker_has_its_own_name(w: &Workers, name: &str, r: Result<&WorkerSpec, ApiError>)
    requires
        call_ensures(Workers::run, (w, name), r),
    ensures
        name@ == "summarizer"@ ==> (r matches Ok(s) ==> w@.summarizer == Some(s@)),
        name@ == "distiller"@ ==> (r matches Ok(s) ==> w@.distiller == Some(s@)),
        name@ == "reflector"@ ==> (r matches Ok(s) ==> w@.reflector == Some(s@)),
        name@ != "summarizer"@ && name@ != "distiller"@ && name@ != "reflector"@ ==> r is Err,
{
    crate::agent::call_laws::worker_is_found_by_its_name(w@, name@);
}

/// A tool call is announced as the model made it; it is executed at once only
/// where its tool is safe, and consent is asked for where its tool needs it.
pub proof fn call_begins_by_its_risk(
    call: ToolCall,
    risk: Option<Risk>,
    r: (ToolRun, CoreEvent, CallAction),
)
    requires
        call_ensures(ToolRun::begin, (call, risk), r),
    ensures
        r.1@ == (CoreEventView::ToolCall {
            id: call@.id,
            name: call@.name,
            input: call@.arguments,
        }),
        match risk {
            None => r.2 is Settle,
            Some(Risk::Safe) => r.2 is Execute,
            Some(Risk::NeedsApproval(_)) => r.2 is Ask,
        },
{
    crate::agent::call_laws::risk_decides_what_comes_first(crate::agent::tool_call::opt_risk(risk));
}

/// Every tool call is answered under its id, and the log says what was called.
pub proof fn call_is_answered_under_its_id(
    run: ToolRun,
    turn_id: u64,
    reply: Result<String, ApiError>,
    duration_ms: u64,
    r: FinishedCall,
)
    requires
        call_ensures(ToolRun::settle, (run, turn_id, reply, duration_ms), r),
    ensures
        r.message@.role == Role::Tool,
        r.message@.tool_call_id == Some(run.call().id),
        r.audit@.turn_id == turn_id,
        r.audit@.tool == run.call().name,
        r.audit@.input == run.call().arguments,
        r.audit@.duration_ms == duration_ms,
        match r.event@ {
            CoreEventView::ToolResult { id, name, output, .. } => id == run.call().id && name
                == run.call().name && output == r.message@.content,
            _ => false,
        },
{
    crate::agent::call_laws::every_call_is_answered(
        run.call(),
        run.clearance(),
        crate::agent::tool_call::reply_view(reply),
        turn_id,
        duration_ms,
    );
}

/// There is a memory block exactly where there are notes.
pub proof fn notes_make_a_block(notes: &Vec<MemoryNote>, query: &str, r: Option<String>)
    requires
        call_ensures(memory_block, (notes, query), r),
    ensures
        r is Some <==> notes@.len() > 0,
{
    let all = crate::fields::views_of(notes@);
    assert(all.len() == notes@.len());
    crate::memory::search_laws::block_is_introduced(
        all,
        crate::memory::terms_of(query@, 3),
        crate::memory::inject::MEMORY_BLOCK_BUDGET_TOKENS,
    );
}

/// What is written as a note is read back as its text, in the directory of the
/// day.
pub proof fn written_note_is_read_back(
    store: &MemoryStore,
    content: &str,
    tags: &Vec<String>,
    today: &str,
    nanos: u128,
    file: (String, String),
    path: &str,
    slug: &str,
    text: &str,
    modified_unix: u64,
    r: MemoryNote,
)
    requires
        call_ensures(MemoryStore::write, (store, content, tags, today, nanos), file),
        text@ == file.1@,
        call_ensures(parse_note, (path, today, slug, text, modified_unix), r),
        forall|i: int|
            0 <= i < tags@.len() ==> crate::memory::laws::lacks((#[trigger] tags@[i])@, '\n'),
        crate::memory::laws::lacks(today@, '\n'),
    ensures
        r@.content == trim(content@),
        r@.day == today@,
        r@.path == path@,
        r@.modified_unix == modified_unix,
{
    let all = texts(tags@);
    assert forall|i: int| 0 <= i < all.len() implies crate::memory::laws::lacks(
        #[trigger] all[i],
        '\n',
    ) by {
        assert(all[i] == tags@[i]@);
    }
    crate::memory::laws::body_round_trip(content@, all, today@);
}

/// What the reflection writes keeps its tags and says where it comes from.
pub proof fn reflection_is_tagged(tags: Vec<String>, r: Vec<String>, i: int)
    requires
        call_ensures(with_reflect_tag, (tags,), r),
    ensures
        r@.len() >= tags@.len(),
        0 <= i < tags@.len() ==> r@[i]@ == tags@[i]@,
        exists|k: int|
            0 <= k < r@.len() && crate::text::ascii_lower((#[trigger] r@[k])@) == "reflect"@,
{
    let before = texts(tags@);
    let after = texts(r@);
    assert(after.len() == r@.len() && before.len() == tags@.len());
    if 0 <= i < tags@.len() {
        assert(after[i] == before[i]);
        assert(after[i] == r@[i]@ && before[i] == tags@[i]@);
    }
    if after == before {
        let k = choose|k: int|
            0 <= k < before.len() && crate::text::ascii_lower(#[trigger] before[k]) == "reflect"@;
        assert(r@[k]@ == after[k]);
    } else {
        let k = after.len() - 1;
        reveal_strlit("reflect");
        assert(after[k] == "reflect"@);
        assert(r@[k]@ == after[k]);
        assert(crate::text::ascii_lower("reflect"@) =~= "reflect"@);
    }
}

/// Usage adds up, as far as numbers reach; a count that is not told is 0.
pub proof fn usage_is_added(u: &mut Usage, other: &Usage)
    requires
        call_ensures(Usage::add, (u, other), ()),
    ensures
        count_of(old(u).input_tokens) + count_of(other.input_tokens) <= u64::MAX
            ==> final(u).input_tokens == Some(
            (count_of(old(u).input_tokens) + count_of(other.input_tokens)) as u64,
        ),
        count_of(old(u).output_tokens) + count_of(other.output_tokens) <= u64::MAX
            ==> final(u).output_tokens == Some(
            (count_of(old(u).output_tokens) + count_of(other.output_tokens)) as u64,
        ),
        count_of(old(u).total_tokens) + count_of(other.total_tokens) <= u64::MAX
            ==> final(u).total_tokens == Some(
            (count_of(old(u).total_tokens) + count_of(other.total_tokens)) as u64,
        ),
{
}

/// A session that was made live is the one that is found, and the others stay.
pub proof fn live_session_is_found<S>(
    registry: &mut ConversationRegistry<S>,
    id: &str,
    session: S,
    other: Seq<char>,
)
    requires
        call_ensures(ConversationRegistry::<S>::insert, (registry, id, session), ()),
    ensures
        final(registry).live().dom().contains(id@),
        final(registry).live()[id@] == session,
        other != id@ ==> (final(registry).live().dom().contains(other) <==> old(registry).live().dom().contains(other)),
        other != id@ && old(registry).live().dom().contains(other) ==> final(registry).live()[other] == old(registry).live()[other],
{
}

/// A subscriber who follows gets each live event; one who lagged is cut off and
/// stays so.
pub proof fn lagging_subscriber_is_cut_off(s: &mut EventStream, item: LiveItem, r: Polled)
    requires
        call_ensures(EventStream::poll_live, (s, item), r),
    ensures
        item is Lagged ==> r is Ended && !final(s).follows(),
        !old(s).follows() ==> r is Ended && !final(s).follows(),
        old(s).follows() && !(item is Lagged) ==> final(s).follows(),
        match (item, r) {
            (LiveItem::Event(e), Polled::Event(x)) => x == e,
            (LiveItem::Event(_), Polled::Pending) => false,
            (LiveItem::Pending, Polled::Event(_)) => false,
            (LiveItem::Closed, Polled::Event(_)) => false,
            (LiveItem::Closed, Polled::Pending) => false,
            _ => true,
        },
{
}

/// A log that is switched on gets one line for each entry, in its own file; one
/// that is switched off gets none.
pub proof fn entry_becomes_a_line(log: &AuditLog, entry: &AuditEntry, r: Option<(String, String)>)
    requires
        call_ensures(AuditLog::append, (log, entry), r),
    ensures
        match (log@, r) {
            (Some(path), Some((file, line))) => file@ == path && line@ == crate::json::tree_text(
                crate::json::settle(crate::audit::entry_json(entry@)),
            ) + "\n"@,
            (None, None) => true,
            _ => false,
        },
{
}

/// A scan that has room takes every file of the user.
pub proof fn file_is_taken(
    scan: &mut Scan,
    name: &str,
    kind: EntryKind,
    stamp: FileStamp,
    r: Visit,
)
    requires
        call_ensures(Scan::visit, (scan, name, kind, stamp), r),
        old(scan)@.len() < MAX_SCAN_ENTRIES,
        crate::sandbox::laws::of_the_user(name@),
    ensures
        kind == EntryKind::File || kind == EntryKind::Link ==> final(scan)@ == old(scan)@.push(
            stamp@,
        ) && r == Visit::Next,
        kind == EntryKind::Directory ==> final(scan)@ == old(scan)@ && r == Visit::Descend,
{
    crate::sandbox::laws::every_file_of_the_user_is_found(old(scan)@, name@, kind, stamp@);
}

/// What a stream brings is added behind what it brought, as long as there is
/// room, and it is told where something was left out.
pub proof fn output_is_added(c: &mut CappedOutput, chunk: &Vec<u8>, cap: usize)
    requires
        call_ensures(CappedOutput::push, (c, chunk, cap), ()),
        old(c)@.bytes.len() <= cap,
    ensures
        final(c)@.bytes.len() <= cap,
        old(c)@.bytes.len() + chunk@.len() <= cap ==> final(c)@.bytes == old(c)@.bytes + chunk@
            && final(c)@.truncated == old(c)@.truncated,
        old(c)@.bytes.len() + chunk@.len() > cap ==> final(c)@.truncated && final(c)@.bytes == (old(c)@.bytes + chunk@).take(cap as int),
{
    if old(c)@.bytes.len() + chunk@.len() > cap {
        assert(final(c)@.bytes =~= (old(c)@.bytes + chunk@).take(cap as int));
    }
}

} // verus!

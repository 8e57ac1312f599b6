//! What the calls of the library return, whatever they are called with, and how
//! the results of two calls go together.

use vstd::prelude::*;

use crate::agent::persona::persona;
use crate::agent::reflect::{LocalClock, ReflectOutcome, Reflector};
use crate::agent::tool_call::{CallAction, ToolRun};
use crate::config::sections::{parse_hhmm, ReflectConfig, SandboxConfig};
use crate::config::Config;
use crate::conversations::{
    storable, validate_id, Conversation, ConversationStore, ConversationView, FileRead,
    FileRemoval, Loaded, CONVERSATION_SCHEMA_VERSION,
};
use crate::error::{ApiError, ApiErrorKind};
use crate::events::{CoreEvent, CoreEventView, Decision, EventStream, LiveItem, RecvError};
use crate::llm::cassette::Cassette;
use crate::llm::client::{is_event_stream, HttpClient};
use crate::llm::collect::{read_reply, ReplyEnd};
use crate::llm::fake::{record_interaction, same_prompt, FakeProvider};
use crate::llm::types::ChatRequest;
use crate::memory::score_note;
use crate::memory::store::{local_minutes_from_unix, LocalTm, MemoryNote, MemoryStore, NoteFile};
use crate::sandbox::envprep::{finalize, normalize_deps, plan, tail, EnvId, Install, PrepPlan};
use crate::sandbox::exec::{bwrap_args, CappedOutput, RunSpec, ScriptOutcome};
use crate::sandbox::find_python;
use crate::sandbox::laws::says;
use crate::sandbox::limits::Limits;
use crate::sandbox::workspace::{inline_mime, is_inside, safe_file_name};
use crate::search::page::{allow_scheme, check_status, PageReader, MAX_FETCH_BYTES};
use crate::search::{HttpSearch, SearchResult};
use crate::session::registry::ConversationRegistry;
use crate::session::ChatSession;
use crate::text::{
    all_digits, contains, decimal_of, digits_value, ends_with, is_space, join, less, lower,
    split_on, starts_with, texts, trim, trimmed, truncate_chars,
};
use crate::text_laws::{part_at, stands_alone};
use crate::time::two;

verus! {

/// What is trimmed is the text without the white space around it.
pub proof fn trimmed_text_stands_in_the_text(s: &str, r: String)
    requires
        call_ensures(trimmed, (s,), r),
    ensures
        exists|i: int| #[trigger]
            stands_alone(s@, r@, i),
        r@.len() > 0 ==> !is_space(r@[0]) && !is_space(r@.last()),
{
    crate::text_laws::only_white_space_is_trimmed(s@);
}

/// The pieces of a text make it up, and none of them holds the separator.
pub proof fn pieces_are_put_together_again(s: &str, c: char, r: Vec<String>)
    requires
        call_ensures(split_on, (s, c), r),
    ensures
        join(texts(r@), seq![c]) == s@,
        forall|i: int| 0 <= i < r@.len() ==> !(#[trigger] r@[i])@.contains(c),
{
    crate::text_laws::pieces_make_up_the_text(s@, c);
    assert forall|i: int| 0 <= i < r@.len() implies !(#[trigger] r@[i])@.contains(c) by {
        assert(texts(r@)[i] == r@[i]@);
    }
}

/// A number is written with the digits that stand for it.
pub proof fn written_number_is_the_number(n: u64, r: String)
    requires
        call_ensures(decimal_of, (n,), r),
    ensures
        all_digits(r@),
        digits_value(r@) == n,
        r@.len() > 1 ==> r@[0] != '0',
{
    crate::text_laws::number_reads_back(n as nat);
}

/// Lower case turns capitals to their lower-case forms and leaves the rest.
pub proof fn capitals_are_lowered(s: &str, r: String, i: int)
    requires
        call_ensures(lower, (s,), r),
        0 <= i < s@.len(),
    ensures
        r@.len() == s@.len(),
        r@[i] as int == if 'A' <= s@[i] <= 'Z' {
            s@[i] as int + 32
        } else {
            s@[i] as int
        },
{
    crate::text_laws::only_capitals_are_lowered(s@, i);
}

/// A cut text is never longer than its bound and is the start of the text, up to
/// an ellipsis; one that fits is not cut.
pub proof fn cut_is_the_start(text: &str, max: usize, r: String)
    requires
        call_ensures(truncate_chars, (text, max), r),
        max > 0,
    ensures
        r@.len() <= max,
        text@.len() <= max ==> r@ == text@,
        text@.len() > max ==> r@.len() == max && r@.last() == '…' && r@.drop_last()
            == text@.take(max - 1),
{
    crate::text_laws::cut_text_says_so(text@, max as int);
}

/// One text comes before another where the first place at which they part says
/// so.
pub proof fn texts_are_compared_by_their_first_difference(a: &str, b: &str, r: bool)
    requires
        call_ensures(less, (a, b), r),
    ensures
        r <==> exists|k: int| part_at(a@, b@, k),
{
    crate::text_laws::first_difference_decides(a@, b@);
}

/// A text begins with what it is made of first, ends with what it is made of last,
/// and holds both and what stands between them.
pub proof fn parts_are_found(
    s: &str,
    first: Seq<char>,
    middle: Seq<char>,
    last: Seq<char>,
    a: &str,
    b: &str,
    c: &str,
    r: (bool, bool, bool),
)
    requires
        s@ == first + middle + last,
        a@ == first,
        b@ == middle,
        c@ == last,
        call_ensures(starts_with, (s, a), r.0),
        call_ensures(contains, (s, b), r.1),
        call_ensures(ends_with, (s, c), r.2),
    ensures
        r.0,
        r.1,
        r.2,
{
    let n = first.len() as int;
    let m = n + middle.len();
    assert(s@.subrange(0, n) =~= first);
    assert(s@.subrange(n, m) =~= middle);
    assert(s@.subrange(m, m + last.len()) =~= last);
    assert(crate::text::occurs_at(s@, middle, n));
}

/// What is not at the start of a text is not found there.
pub proof fn other_start_is_not_found(s: &str, a: &str, i: int, r: bool)
    requires
        call_ensures(starts_with, (s, a), r),
        0 <= i < a@.len(),
        i >= s@.len() || s@[i] != a@[i],
    ensures
        !r,
{
    if s@.len() >= a@.len() {
        assert(s@.subrange(0, a@.len() as int)[i] == s@[i]);
    }
}

/// Every time of the day is read as its minutes.
pub proof fn time_is_read(value: &str, h: int, m: int, r: Option<u32>)
    requires
        call_ensures(parse_hhmm, (value,), r),
        0 <= h <= 23,
        0 <= m <= 59,
        value@ == two(h) + ":"@ + two(m),
    ensures
        r == Some((h * 60 + m) as u32),
{
    crate::config::laws::time_of_day_is_read(h, m);
}

/// A moment lies in the minute of its day that is told.
pub proof fn moment_lies_in_its_minute(unix: i64, tm: Option<LocalTm>, r: u32)
    requires
        call_ensures(local_minutes_from_unix, (unix, tm), r),
    ensures
        match tm {
            Some(t) => t.minute < 60 ==> r / 60 == t.hour && r % 60 == t.minute,
            None => r < 1440 && 60 * r <= unix as int % 86400 < 60 * r + 60,
        },
{
}

/// A reflector is made only with a memory to write to; it is on where it was
/// switched on, at the time that was set.
pub proof fn reflector_is_as_configured(
    config: &ReflectConfig,
    has_memory: bool,
    r: Result<Reflector, ApiError>,
)
    requires
        call_ensures(Reflector::from_config, (config, has_memory), r),
    ensures
        r is Ok <==> has_memory,
        match r {
            Ok(x) => x.enabled == config.enabled && x.persona_edits == config.persona_edits
                && x.scheduled_minutes < 1440 && (crate::config::sections::hhmm(config.time@)
                is Some ==> crate::config::sections::hhmm(config.time@) == Some(
                x.scheduled_minutes,
            )),
            Err(e) => e@.kind == ApiErrorKind::Config,
        },
{
}

/// A reflector that is switched off never runs, neither by its time nor on
/// demand; one that is on runs on demand at any time.
pub proof fn switch_decides(
    x: &Reflector,
    now: u64,
    last_run: u64,
    clock: LocalClock,
    scheduled: Option<ReflectOutcome>,
    demanded: Option<ReflectOutcome>,
)
    requires
        call_ensures(Reflector::run_scheduled, (x, now, last_run, clock), scheduled),
        call_ensures(Reflector::run_now, (x,), demanded),
    ensures
        !x.enabled ==> scheduled is Some && demanded is Some,
        x.enabled ==> demanded is None,
        match scheduled {
            Some(o) => o.notes == 0 && !o.persona_changed,
            None => x.enabled,
        },
{
}

/// A tool call that needs consent is executed where it was allowed, and where it
/// was denied it is not.
pub proof fn consent_decides(step: &mut ToolRun, decision: Decision, r: CallAction)
    requires
        call_ensures(ToolRun::decide, (step, decision), r),
    ensures
        r is Execute <==> decision == Decision::Allow,
{
}

/// The persona is what its file says, without the white space around it; a file
/// that is not there or says nothing is no persona.
pub proof fn persona_is_what_its_file_says(read: FileRead, r: Option<String>)
    requires
        call_ensures(persona, (read,), r),
    ensures
        match (read, r) {
            (FileRead::Text(t), Some(p)) => p@.len() > 0 && exists|i: int| #[trigger]
                stands_alone(t@, p@, i),
            (FileRead::Text(t), None) => trim(t@).len() == 0,
            (_, Some(_)) => false,
            (_, None) => true,
        },
{
    if let FileRead::Text(t) = read {
        crate::text_laws::only_white_space_is_trimmed(t@);
    }
}

/// A valid id is accepted: letters, digits, hyphens and underscores, and not too
/// many of them; whatever holds anything else is refused.
pub proof fn id_is_checked(id: &str, i: int, r: Result<(), ApiError>)
    requires
        call_ensures(validate_id, (id,), r),
    ensures
        id@.len() == 0 || id@.len() > 128 ==> r is Err,
        0 <= i < id@.len() && (id@[i] == '/' || id@[i] == '.' || id@[i] == '\\' || is_space(id@[i]))
            ==> r is Err,
        0 < id@.len() <= 128 && (forall|k: int|
            0 <= k < id@.len() ==> 'a' <= #[trigger] id@[k] <= 'z' || '0' <= id@[k] <= '9') ==> r
            is Ok,
{
    if r is Ok && 0 <= i < id@.len() {
        let c = id@[i];
        assert(crate::text::is_alnum(c) || c == '-' || c == '_');
    }
}

/// What was saved is what is loaded: the same conversation, with the time at
/// which it was saved.
pub proof fn saved_conversation_is_loaded(
    store: &ConversationStore,
    conversation: &Conversation,
    now: &str,
    file: (String, String),
    id: &str,
    read: FileRead,
    r: Result<Loaded, ApiError>,
)
    requires
        call_ensures(ConversationStore::save, (store, conversation, now), Ok(file)),
        read matches FileRead::Text(text) && text@ == file.1@,
        call_ensures(ConversationStore::load, (store, id, read), r),
        id@ == conversation.id@,
        storable(conversation@),
        conversation.schema == CONVERSATION_SCHEMA_VERSION,
    ensures
        r matches Ok(Loaded::Found(c)) && c@ == (ConversationView {
            updated_at: now@,
            ..conversation@
        }),
{
}

/// A file that cannot be used is moved aside under a name of its own, in the same
/// directory, and is never taken for a conversation; one that is not there is
/// absent.
pub proof fn broken_file_is_moved_aside(
    store: &ConversationStore,
    id: &str,
    read: FileRead,
    r: Result<Loaded, ApiError>,
)
    requires
        call_ensures(ConversationStore::load, (store, id, read), r),
        crate::conversations::valid_id(id@),
    ensures
        read is Missing ==> (r matches Ok(l) && l is Absent),
        read is Failed ==> (r matches Ok(Loaded::Quarantine { from, to }) && to@ == from@
            + ".quarantine"@ && from@ == crate::paths::joined(store@, id@ + ".json"@)),
{
}

/// Deleting succeeds where the file is gone afterwards.
pub proof fn deleted_means_gone(
    store: &ConversationStore,
    id: &str,
    removed: FileRemoval,
    r: Result<(), ApiError>,
)
    requires
        call_ensures(ConversationStore::delete, (store, id, removed), r),
        crate::conversations::valid_id(id@),
    ensures
        r is Ok <==> removed is Removed || removed is Missing,
{
}

/// The latest thread is the id of one that there is, and none was written after
/// that one.
pub proof fn latest_is_the_last_written<S>(
    registry: &ConversationRegistry<S>,
    conversations: Vec<Conversation>,
    r: Option<String>,
    k: int,
)
    requires
        call_ensures(ConversationRegistry::<S>::latest, (registry, conversations), r),
        0 <= k < conversations@.len(),
    ensures
        r matches Some(id) && exists|n: int|
            0 <= n < conversations@.len() && (#[trigger] conversations@[n])@.id == id@
                && !crate::text::lex_lt(conversations@[n]@.updated_at, conversations@[k]@.updated_at),
{
    let all = crate::fields::views_of(conversations@);
    crate::session::registry::latest_thread_is_the_newest(all, k);
    let first = crate::order::ranked::<Conversation>(all)[0];
    let n = choose|n: int| 0 <= n < all.len() && all[n] == first;
    assert(conversations@[n]@ == first);
    assert(all[k] == conversations@[k]@);
}

/// A subscriber of a session with a turn gets the events of that turn and then
/// the live ones; without a turn the stream has ended.
pub proof fn subscriber_follows_the_turn(s: &ChatSession, r: EventStream)
    requires
        call_ensures(ChatSession::subscribe, (s,), r),
    ensures
        r.follows() <==> s@.active is Some,
        match s@.active {
            Some(a) => r.pending() == a.buffer,
            None => r.pending().len() == 0,
        },
{
}

/// A live event is received as it came; a stream that has ended says so, and a
/// subscriber who lost events is told.
pub proof fn live_event_is_received(
    s: &EventStream,
    item: LiveItem,
    r: Option<Result<CoreEvent, RecvError>>,
)
    requires
        call_ensures(EventStream::receive_live, (s, item), r),
        s.follows(),
    ensures
        match (item, r) {
            (LiveItem::Event(e), Some(Ok(x))) => x == e,
            (LiveItem::Lagged(n), Some(Err(RecvError::Lagged(m)))) => m == n,
            (LiveItem::Closed, Some(Err(RecvError::Closed))) => true,
            (LiveItem::Pending, None) => true,
            _ => false,
        },
{
}

/// The first event of a replay comes first, and the rest stays.
pub proof fn replay_goes_in_order(s: &mut EventStream, r: Option<CoreEvent>)
    requires
        call_ensures(EventStream::next_replayed, (s,), r),
    ensures
        match r {
            Some(e) => old(s).pending() == seq![e@] + final(s).pending(),
            None => old(s).pending().len() == 0 && final(s).pending().len() == 0,
        },
        final(s).follows() == old(s).follows(),
{
    if let Some(e) = r {
        assert(old(s).pending() =~= seq![e@] + final(s).pending());
    }
}

/// A request without a key carries none, and with one carries that.
pub proof fn key_is_sent(
    base_url: &str,
    api_key: &str,
    client: HttpClient,
    r: Option<String>,
)
    requires
        call_ensures(HttpClient::new, (base_url, api_key), Ok(client)),
        call_ensures(HttpClient::bearer, (&client,), r),
    ensures
        match r {
            Some(k) => k@ == api_key@ && k@.len() > 0,
            None => api_key@.len() == 0,
        },
{
}

/// A stream of events is told by its type, in any case; without a type there is
/// none.
pub proof fn stream_is_told_by_its_type(
    content_type: &Option<String>,
    before: Seq<char>,
    after: Seq<char>,
    r: bool,
)
    requires
        call_ensures(is_event_stream, (content_type,), r),
    ensures
        content_type is None ==> !r,
        match *content_type {
            Some(t) => crate::text::ascii_lower(t@) == before + "text/event-stream"@ + after ==> r,
            None => true,
        },
{
    if let Some(t) = *content_type {
        let pat = "text/event-stream"@;
        if crate::text::ascii_lower(t@) == before + pat + after {
            let n = before.len() as int;
            assert((before + pat + after).subrange(n, n + pat.len()) =~= pat);
            assert(crate::text::occurs_at(crate::text::ascii_lower(t@), pat, n));
        }
    }
}

/// Only a page that was found is read.
pub proof fn only_a_found_page_is_read(url: &str, status: u16, r: Result<(), ApiError>)
    requires
        call_ensures(check_status, (url, status), r),
    ensures
        r is Ok <==> 200 <= status <= 299,
{
}

/// A note is contained where one of the notes says the same, white space around
/// it aside.
pub proof fn same_note_is_contained(
    store: &MemoryStore,
    notes: &Vec<MemoryNote>,
    content: &str,
    r: bool,
    i: int,
)
    requires
        call_ensures(MemoryStore::contains_body, (store, notes, content), r),
    ensures
        0 <= i < notes@.len() && notes@[i]@.content == content@ ==> r,
        notes@.len() == 0 ==> !r,
{
    if 0 <= i < notes@.len() {
        assert(crate::fields::views_of(notes@)[i] == notes@[i]@);
    }
}

/// A run is limited as it was configured: its time, a little more of the
/// processor's, and its memory, as far as numbers reach.
pub proof fn run_is_limited_as_configured(config: &SandboxConfig, r: Limits, timeout: u64)
    requires
        call_ensures(Limits::from_config, (config,), r),
        call_ensures(Limits::timeout_secs, (&r,), timeout),
    ensures
        config.timeout_secs > 0 ==> timeout == config.timeout_secs,
        timeout > 0,
        config.timeout_secs < u64::MAX ==> r.cpu_secs > config.timeout_secs,
        config.memory_mb <= 1_000_000_000 ==> r.memory_bytes == config.memory_mb * 1_048_576,
{
}

/// A command line gives the script its workspace and nothing else to write, and
/// ends with its interpreter.
pub proof fn command_line_is_complete(spec: &RunSpec, r: Vec<String>)
    requires
        call_ensures(bwrap_args, (spec,), r),
    ensures
        says(texts(r@), seq!["--bind"@, spec.workspace@, "/workspace"@]),
        texts(r@).take(4) == seq![
            "--unshare-all"@,
            "--new-session"@,
            "--die-with-parent"@,
            "--clearenv"@,
        ],
        r@.len() >= 3,
        spec.env is None ==> r@[r@.len() - 2]@ == spec.python@,
{
    crate::sandbox::laws::script_has_its_workspace(spec@);
    crate::sandbox::laws::run_is_cut_off(spec@);
    crate::sandbox::laws::script_is_run_by_its_interpreter(spec@);
    assert(texts(r@).len() == r@.len());
    assert(texts(r@)[r@.len() - 2] == r@[r@.len() - 2]@);
}

/// The outcome of a run is how the process ended and what it wrote, and it is
/// told where a stream was cut.
pub proof fn outcome_is_how_it_ended(
    stdout: &CappedOutput,
    stderr: &CappedOutput,
    exit_code: Option<i32>,
    signal: Option<i32>,
    timed_out: bool,
    duration_ms: u64,
    r: ScriptOutcome,
    success: bool,
)
    requires
        call_ensures(
            ScriptOutcome::of_run,
            (stdout, stderr, exit_code, signal, timed_out, duration_ms),
            r,
        ),
        call_ensures(ScriptOutcome::success, (&r,), success),
    ensures
        success <==> exit_code == Some(0i32) && !timed_out,
        r.stdout@ == crate::llm::sse::lossy(stdout@.bytes),
        r.stderr@ == crate::llm::sse::lossy(stderr@.bytes),
        !r.truncated <==> !stdout@.truncated && !stderr@.truncated,
        r.signal == signal,
        r.duration_ms == duration_ms,
{
}

/// The interpreter that is found is there, and none before it is.
pub proof fn found_interpreter_is_there(
    candidates: &Vec<String>,
    is_file: &Vec<bool>,
    r: Result<String, ApiError>,
)
    requires
        candidates@.len() == is_file@.len(),
        call_ensures(find_python, (candidates, is_file), r),
    ensures
        match r {
            Ok(p) => exists|i: int|
                0 <= i < candidates@.len() && (#[trigger] candidates@[i])@ == p@ && is_file@[i]
                    && forall|k: int| 0 <= k < i ==> !is_file@[k],
            Err(_) => forall|k: int| 0 <= k < is_file@.len() ==> !is_file@[k],
        },
{
    crate::sandbox::laws::first_interpreter_is_taken(is_file@, 0);
    let i = crate::sandbox::first_file(is_file@, 0);
    if i < candidates@.len() {
        assert(candidates@[i]@ == candidates@[i]@);
    }
}

/// Each dependency that was asked for is in the set once, and no other.
pub proof fn set_holds_what_was_asked_for(raw: &Vec<String>, r: Vec<String>, i: int)
    requires
        call_ensures(normalize_deps, (raw,), r),
    ensures
        0 <= i < raw@.len() && trim(raw@[i]@).len() > 0 ==> texts(r@).contains(trim(raw@[i]@)),
        0 <= i < r@.len() ==> exists|k: int|
            0 <= k < raw@.len() && trim((#[trigger] raw@[k])@) == r@[i]@,
        forall|a: int, b: int| 0 <= a < b < r@.len() ==> (#[trigger] r@[a])@ != (#[trigger] r@[b])@,
{
    let all = texts(raw@);
    let set = texts(r@);
    if 0 <= i < raw@.len() && trim(raw@[i]@).len() > 0 {
        crate::sandbox::laws::every_dependency_is_prepared_once(all, trim(raw@[i]@));
        assert(trim(all[i]) == trim(raw@[i]@));
    }
    if 0 <= i < r@.len() {
        crate::sandbox::laws::every_dependency_is_prepared_once(all, set[i]);
        assert(set.contains(set[i]));
        let k = choose|k: int| 0 <= k < all.len() && trim(#[trigger] all[k]) == set[i];
        assert(trim(raw@[k]@) == r@[i]@);
    }
    crate::sandbox::laws::every_dependency_is_prepared_once(all, seq![]);
    assert forall|a: int, b: int| 0 <= a < b < r@.len() implies (#[trigger] r@[a])@ != (
    #[trigger] r@[b])@ by {
        assert(set[a] == r@[a]@ && set[b] == r@[b]@);
    }
}

/// An environment has one name: the one under which it is reused is the one that
/// its installation ends with.
pub proof fn environment_has_one_name(
    envs: &str,
    python: &str,
    deps: &Vec<String>,
    pid: u32,
    other: u32,
    reused: EnvId,
    install: Install,
    done: Result<EnvId, ApiError>,
)
    requires
        call_ensures(plan, (envs, python, deps, true, pid), Ok(PrepPlan::Reuse(reused))),
        call_ensures(plan, (envs, python, deps, false, other), Ok(PrepPlan::Install(install))),
        call_ensures(finalize, (install, Ok(()), false), done),
    ensures
        done matches Ok(id) && id@ == reused@,
{
    let set = crate::sandbox::envprep::normalized(texts(deps@));
    crate::sandbox::envprep::normalizing_twice_is_normalizing_once(texts(deps@));
}

/// What is kept of a long message is its end.
pub proof fn end_is_kept(text: &str, max: usize, r: String)
    requires
        call_ensures(tail, (text, max), r),
    ensures
        r@.len() <= max,
        r@.len() <= trim(text@).len(),
        trim(text@).skip(trim(text@).len() - r@.len()) == r@,
        r@.len() < max ==> r@ == trim(text@),
{
    crate::sandbox::laws::end_of_a_message_is_kept(text@, max as int);
}

/// An accepted file name is the name that was asked for, and it is one part of a
/// path.
pub proof fn accepted_name_is_the_name(name: &str, r: Result<String, ApiError>)
    requires
        call_ensures(safe_file_name, (name,), r),
    ensures
        match r {
            Ok(s) => s@ == name@ && name@.len() > 0 && name@[0] != '.' && !name@.contains('/')
                && !name@.contains('\\'),
            Err(e) => e@.kind == ApiErrorKind::Config,
        },
{
}

/// What lies below a directory is inside it; a neighbour is not.
pub proof fn only_what_lies_below_is_inside(
    dir: Seq<char>,
    a: Seq<char>,
    b: Seq<char>,
    root: &str,
    child: &str,
    neighbour: &str,
    r: (bool, bool),
)
    requires
        crate::sandbox::workspace::name_fault(a) is None,
        crate::sandbox::workspace::name_fault(b) is None,
        a != b,
        root@ == dir + "/"@ + a,
        child@ == root@ + "/"@ + b,
        neighbour@ == dir + "/"@ + b,
        call_ensures(is_inside, (root, child), r.0),
        call_ensures(is_inside, (root, neighbour), r.1),
    ensures
        r.0,
        !r.1,
{
    crate::sandbox::laws::what_lies_below_is_inside(root@, b);
    crate::sandbox::laws::neighbour_is_not_inside(dir, a, b);
}

/// Only images are shown in place, and an image that can carry scripts is not.
pub proof fn only_images_are_shown_in_place(path: &str, r: Option<&'static str>)
    requires
        call_ensures(inline_mime, (path,), r),
    ensures
        match r {
            Some(m) => m@ != "image/svg+xml"@ && m@ != "text/html"@ && crate::text::begins(
                m@,
                "image/"@,
            ),
            None => true,
        },
{
    if let Some(m) = r {
        crate::sandbox::workspace::svg_is_never_inline();
        reveal_strlit("image/");
        reveal_strlit("image/png");
        reveal_strlit("image/jpeg");
        reveal_strlit("image/gif");
        reveal_strlit("image/webp");
        reveal_strlit("text/html");
        assert(m@[0] == 'i');
        assert("text/html"@[0] == 't');
        assert(m@.subrange(0, 6) =~= "image/"@);
    }
}

/// A recorded request is answered from the recording: with the events of an
/// interaction that matches it.
pub proof fn recorded_answer_is_given(
    f: &mut FakeProvider,
    request: &ChatRequest,
    r: Vec<CoreEvent>,
    i: int,
)
    requires
        call_ensures(FakeProvider::chat, (f, request), r),
        0 <= i < old(f)@.interactions.len(),
        same_prompt(old(f)@.interactions[i].interaction.request, request@),
    ensures
        exists|p: int|
            0 <= p < old(f)@.interactions.len() && same_prompt(
                (#[trigger] old(f)@.interactions[p]).interaction.request,
                request@,
            ) && crate::events::event_views(r@) == old(f)@.interactions[p].interaction.events
                && final(f)@.interactions[p].played,
        final(f)@.interactions.len() == old(f)@.interactions.len(),
{
    crate::llm::fake::recorded_request_is_replayed(old(f)@, request@, i);
    let p = crate::llm::fake::pick(old(f)@.interactions, request@)->Some_0;
    assert(same_prompt(old(f)@.interactions[p].interaction.request, request@));
}

/// A note scores for a term by its tags first, then by its text, and nothing for a
/// term that it does not hold.
pub proof fn note_scores_for_a_term(note: &MemoryNote, terms: &Vec<String>, r: u128)
    requires
        call_ensures(score_note, (note, terms), r),
        terms@.len() == 1,
    ensures
        ({
            let term = terms@[0]@;
            r == if crate::memory::search_laws::tagged_with(note@, term) {
                3
            } else if crate::memory::search_laws::within(
                crate::memory::lowercase(note@.content),
                term,
            ) {
                1int
            } else {
                0
            }
        }),
{
    let all = texts(terms@);
    assert(all.len() == 1 && all[0] == terms@[0]@);
    crate::memory::search_laws::score_adds_up(note@, all, all);
}

/// A search with words gives the notes that match them best, best first.
pub proof fn query_gives_the_best_notes(
    store: &MemoryStore,
    notes: &Vec<MemoryNote>,
    query: &str,
    limit: usize,
    r: Vec<MemoryNote>,
)
    requires
        call_ensures(MemoryStore::search, (store, notes, query, limit), r),
        crate::memory::terms_of(query@, 1).len() > 0,
    ensures
        crate::memory::search_laws::best_first(
            crate::fields::views_of(notes@),
            crate::memory::terms_of(query@, 1),
            limit as int,
            crate::fields::views_of(r@),
        ),
{
    crate::memory::search_laws::search_finds_the_best(
        crate::fields::views_of(notes@),
        crate::memory::terms_of(query@, 1),
        limit as int,
    );
}

/// Notes are listed with the newest day first, and of a day with the last change
/// first.
pub proof fn newest_note_is_listed_first(
    store: &MemoryStore,
    files: &Vec<NoteFile>,
    r: Vec<MemoryNote>,
    i: int,
    j: int,
)
    requires
        call_ensures(MemoryStore::list, (store, files), r),
        0 <= i < j < r@.len(),
    ensures
        !crate::text::lex_lt(r@[i]@.day, r@[j]@.day),
        r@[i]@.day == r@[j]@.day ==> r@[i]@.modified_unix >= r@[j]@.modified_unix,
{
    let all = crate::fields::views_of(r@);
    assert(all.len() == r@.len());
    assert(all[i] == r@[i]@ && all[j] == r@[j]@);
    crate::memory::search_laws::notes_are_listed_newest_first(
        crate::fields::views_of(files@),
        i,
        j,
    );
}

/// What a search service answers counts only where it says that it succeeded.
pub proof fn failed_search_gives_no_results(
    s: &HttpSearch,
    status: u16,
    body: &str,
    max_results: usize,
    r: Result<Vec<SearchResult>, ApiError>,
)
    requires
        call_ensures(HttpSearch::read, (s, status, body, max_results), r),
        status < 200 || status > 299,
    ensures
        r matches Err(e) && e@.kind == ApiErrorKind::Provider,
{
    crate::search::laws::only_success_counts(s@.kind, status, body@, max_results);
}

/// Of a page its first bytes are read, in the order in which they come.
pub proof fn page_is_read_from_its_start(p: &mut PageReader, chunk: &Vec<u8>)
    requires
        call_ensures(PageReader::push, (p, chunk), ()),
        old(p)@.len() <= MAX_FETCH_BYTES,
    ensures
        final(p)@.len() <= MAX_FETCH_BYTES,
        old(p)@.len() + chunk@.len() <= MAX_FETCH_BYTES ==> final(p)@ == old(p)@ + chunk@,
        old(p)@.len() + chunk@.len() > MAX_FETCH_BYTES ==> final(p)@ == (old(p)@ + chunk@).take(
            MAX_FETCH_BYTES as int,
        ),
{
}

/// Only pages of the web are fetched.
pub proof fn only_web_pages_are_fetched(
    url: &str,
    scheme: Result<String, String>,
    r: Result<(), ApiError>,
)
    requires
        call_ensures(allow_scheme, (url, scheme), r),
    ensures
        r is Ok <==> (scheme matches Ok(s) && (s@ == "http"@ || s@ == "https"@)),
{
}

/// What a reply says is the text of its events up to its end.
pub proof fn reply_says_its_text(events: &Vec<CoreEvent>, r: (String, ReplyEnd))
    requires
        call_ensures(read_reply, (events,), r),
        crate::agent::turn_laws::open_ended(crate::events::event_views(events@)),
    ensures
        r.0@ == crate::agent::turn_laws::said(crate::events::event_views(events@)),
{
    crate::agent::call_laws::reply_is_what_was_said(
        crate::events::event_views(events@),
        CoreEventView::TurnDone { usage: None },
        seq![],
    );
}

/// An interaction that brought something is recorded behind what was recorded
/// before, as it took place.
pub proof fn interaction_is_recorded(
    cassette: Cassette,
    now: Option<u64>,
    request: ChatRequest,
    events: Vec<CoreEvent>,
    r: Option<Cassette>,
)
    requires
        call_ensures(record_interaction, (Ok(cassette), now, request, events), r),
    ensures
        match r {
            Some(c) => c@.interactions.len() == cassette@.interactions.len() + 1
                && c@.interactions.drop_last() == cassette@.interactions
                && c@.interactions.last().request == request@ && c@.interactions.last().events
                == crate::events::event_views(events@) && events@.len() > 0,
            None => events@.len() == 0,
        },
{
    crate::llm::fake::recording_grows_at_its_end(
        cassette@,
        request@,
        crate::events::event_views(events@),
    );
}

/// A configuration that is accepted is the one that was written: its port, its
/// key, its limits and its paths.
pub proof fn accepted_configuration_is_used(config: Config, r: Result<Config, ApiError>)
    requires
        call_ensures(Config::validate, (config,), r),
    ensures
        match r {
            Ok(c) => c@.port == config@.port && c@.provider.api_key == config@.provider.api_key
                && c@.context == config@.context && c@.sandbox.workspace
                == config@.sandbox.workspace && c@.sandbox.read_paths
                == config@.sandbox.read_paths && c@.provider.model == trim(config@.provider.model)
                && c@.provider.model.len() > 0,
            Err(e) => e@.kind == ApiErrorKind::Config,
        },
{
    crate::config::laws::set_values_are_used(config@);
}

} // verus!

//! The threads: which sessions are live, and the rows of a listing.

use vstd::prelude::*;

use crate::conversations::{Conversation, ConversationStore, ConversationView, Loaded};
use crate::error::{ApiError, ApiErrorKind, ApiErrorView};
use crate::events::Usage;
use crate::fields::{read_opt_str, read_str, read_u64, FromJson, Record};
use crate::json::{Json, JsonView};
use crate::session::{ChatSession, SessionView};
use crate::text::{hex_of, quote, same};

verus! {

/// One row of the listing of threads.
#[derive(Debug, PartialEq, Eq)]
pub struct ThreadSummary {
    pub id: String,
    pub title: Option<String>,
    pub created_at: String,
    pub updated_at: String,
    pub message_count: usize,
    pub usage: Usage,
}

/// The content of a [`ThreadSummary`].
#[verifier::ext_equal]
pub struct ThreadView {
    pub id: Seq<char>,
    pub title: Option<Seq<char>>,
    pub created_at: Seq<char>,
    pub updated_at: Seq<char>,
    pub message_count: usize,
    pub usage: Usage,
}

impl View for ThreadSummary {
    type V = ThreadView;

    open spec fn view(&self) -> ThreadView {
        ThreadView {
            id: self.id@,
            title: crate::text::opt_text(self.title),
            created_at: self.created_at@,
            updated_at: self.updated_at@,
            message_count: self.message_count,
            usage: self.usage,
        }
    }
}

/// The fields of a row.
pub open spec fn thread_fields(t: ThreadView) -> Seq<crate::json::FieldView> {
    seq![crate::json::entry("id"@, JsonView::Str(t.id))] + crate::fields::text_field(
        "title"@,
        t.title,
    ) + seq![
        crate::json::entry("createdAt"@, JsonView::Str(t.created_at)),
        crate::json::entry("updatedAt"@, JsonView::Str(t.updated_at)),
        crate::json::entry("messageCount"@, JsonView::U64(t.message_count as u64)),
        crate::json::entry("usage"@, crate::events_json::usage_json(t.usage)),
    ]
}

/// The JSON form of a row.
pub open spec fn thread_json(t: ThreadView) -> JsonView {
    crate::json::object(thread_fields(t))
}

/// The number of messages in a field.
pub open spec fn count_at(j: JsonView) -> Option<usize> {
    match crate::fields::u64_at(j, "messageCount"@) {
        Some(n) => if n <= usize::MAX {
            Some(n as usize)
        } else {
            None
        },
        None => None,
    }
}

impl Record for ThreadSummary {
    open spec fn names() -> Seq<Seq<char>> {
        seq!["id"@, "title"@, "createdAt"@, "updatedAt"@, "messageCount"@, "usage"@]
    }

    open spec fn of_object(j: JsonView) -> Option<ThreadView> {
        match (
            crate::fields::str_at(j, "id"@),
            crate::fields::opt_str_at(j, "title"@),
            crate::fields::str_at(j, "createdAt"@),
            crate::fields::str_at(j, "updatedAt"@),
            count_at(j),
            crate::conversations::usage_at(j),
        ) {
            (
                Some(id),
                Some(title),
                Some(created_at),
                Some(updated_at),
                Some(message_count),
                Some(usage),
            ) => Some(
                ThreadView {
                    id: id,
                    title: title,
                    created_at: created_at,
                    updated_at: updated_at,
                    message_count: message_count,
                    usage: usage,
                },
            ),
            _ => None,
        }
    }

    fn field_names() -> (r: Vec<&'static str>) {
        let r: Vec<&'static str> = vec![
            "id",
            "title",
            "createdAt",
            "updatedAt",
            "messageCount",
            "usage",
        ];
        assert(crate::fields::names_of(r@) =~= Self::names());
        r
    }

    fn from_object(j: &Json) -> (r: Option<ThreadSummary>) {
        let count: Option<usize> = match read_u64(j, "messageCount") {
            Some(n) => if n <= usize::MAX as u64 {
                Some(n as usize)
            } else {
                None
            },
            None => None,
        };
        let usage: Option<Usage> = match j.get("usage") {
            None => Some(Usage { input_tokens: None, output_tokens: None, total_tokens: None }),
            Some(x) => Usage::from_json(x),
        };
        match (
            read_str(j, "id"),
            read_opt_str(j, "title"),
            read_str(j, "createdAt"),
            read_str(j, "updatedAt"),
            count,
            usage,
        ) {
            (
                Some(id),
                Some(title),
                Some(created_at),
                Some(updated_at),
                Some(message_count),
                Some(usage),
            ) => Some(
                ThreadSummary { id, title, created_at, updated_at, message_count, usage },
            ),
            _ => None,
        }
    }
}

/// A row reads back as it was.
pub proof fn thread_round_trip(t: ThreadView)
    ensures
        <ThreadSummary as FromJson>::of(thread_json(t)) == Some(t),
{
    reveal_strlit("id");
    reveal_strlit("createdAt");
    reveal_strlit("updatedAt");
    reveal_strlit("messageCount");
    reveal_strlit("usage");
    reveal_strlit("title");
    assert("id"@.len() == 2);
    assert("createdAt"@.len() == 9);
    assert("updatedAt"@.len() == 9);
    assert("messageCount"@.len() == 12);
    assert("usage"@.len() == 5);
    assert("title"@.len() == 5);
    assert("createdAt"@[0] != "updatedAt"@[0]);
    assert("usage"@[0] != "title"@[0]);
    let all = thread_fields(t);
    crate::json::lemma_collect_has(all, 0);
    let a = crate::fields::text_field("title"@, t.title).len() as int;
    crate::json::lemma_collect_has(all, 1 + a);
    crate::json::lemma_collect_has(all, 2 + a);
    crate::json::lemma_collect_has(all, 3 + a);
    crate::json::lemma_collect_has(all, 4 + a);
    if t.title is Some {
        crate::json::lemma_collect_has(all, 1);
    } else {
        crate::json::lemma_collect_lacks(all, "title"@);
    }
    crate::events_json::usage_round_trip(t.usage);
}

/// The row of a conversation.
pub open spec fn thread_of(c: ConversationView) -> ThreadView {
    ThreadView {
        id: c.id,
        title: c.title,
        created_at: c.created_at,
        updated_at: c.updated_at,
        message_count: c.messages.len() as usize,
        usage: c.usage,
    }
}

impl ThreadSummary {
    /// The row of a conversation.
    pub fn of_conversation(c: Conversation) -> (r: ThreadSummary)
        ensures
            r@ == thread_of(c@),
    {
        ThreadSummary {
            id: c.id,
            title: c.title,
            created_at: c.created_at,
            updated_at: c.updated_at,
            message_count: c.messages.len(),
            usage: c.usage,
        }
    }

    /// The JSON form.
    pub fn to_json(&self) -> (r: Json)
        ensures
            r@ == thread_json(self@),
    {
        let ghost f = |f: (&str, Json)| crate::json::entry(f.0@, f.1@);
        let mut fields: Vec<(&str, Json)> = vec![("id", Json::Str(self.id.clone()))];
        if let Some(t) = &self.title {
            fields.push(("title", Json::Str(t.clone())));
        }
        fields.push(("createdAt", Json::Str(self.created_at.clone())));
        fields.push(("updatedAt", Json::Str(self.updated_at.clone())));
        fields.push(("messageCount", Json::of_u64(self.message_count as u64)));
        fields.push(("usage", self.usage.to_json()));
        assert(fields@.map_values(f) =~= thread_fields(self@));
        Json::of_fields(fields)
    }
}

/// The id of a new thread.
pub open spec fn thread_id(nanos: u128, counter: u64) -> Seq<char> {
    "t"@ + crate::text::hex(nanos as nat) + crate::text::hex(counter as nat)
}

/// The id of a new thread: the time in nanoseconds and a counter.
pub fn new_thread_id(nanos: u128, counter: u64) -> (r: String)
    ensures
        r@ == thread_id(nanos, counter),
        crate::conversations::valid_id(r@),
{
    let mut id = "t".to_owned();
    id.append(hex_of(nanos).as_str());
    id.append(hex_of(counter as u128).as_str());
    proof {
        thread_id_is_valid(nanos, counter);
    }
    id
}

/// The id of a new thread is always valid.
pub proof fn thread_id_is_valid(nanos: u128, counter: u64)
    ensures
        crate::conversations::valid_id(thread_id(nanos, counter)),
{
    reveal_strlit("t");
    crate::text::lemma_hex_chars(nanos as nat);
    crate::text::lemma_hex_chars(counter as nat);
    crate::text::lemma_hex_len_128(nanos as nat);
    crate::text::lemma_hex_len_64(counter as nat);
}

/// A live session under its id.
struct Live<S> {
    id: String,
    session: S,
}

/// The live sessions of a list by their ids.
spec fn live_map<S>(v: Seq<Live<S>>) -> Map<Seq<char>, S>
    decreases v.len(),
{
    if v.len() == 0 {
        Map::empty()
    } else {
        live_map(v.drop_last()).insert(v.last().id@, v.last().session)
    }
}

/// The threads of a store: the sessions that are live are found again, so that
/// a turn in progress stays reachable.
pub struct ConversationRegistry<S> {
    store: ConversationStore,
    sessions: Vec<Live<S>>,
}

/// What the id of a thread that is not there is answered.
pub open spec fn no_thread(id: Seq<char>) -> ApiErrorView {
    crate::error::failure(
        ApiErrorKind::NotFound,
        "no thread with id "@ + crate::text::quoted(id),
    )
}

/// A thread that was just made.
pub open spec fn new_thread(
    id: Seq<char>,
    store: Seq<char>,
    title: Option<Seq<char>>,
    now: Seq<char>,
) -> SessionView {
    SessionView { title: title, ..crate::session::opened(id, now, Some(store), None) }
}

impl<S> ConversationRegistry<S> {
    /// The live sessions by their ids.
    pub closed spec fn live(&self) -> Map<Seq<char>, S> {
        live_map(self.sessions@)
    }

    /// The directory of the store.
    pub closed spec fn place(&self) -> Seq<char> {
        self.store@
    }

    /// The threads of a store; none is live yet.
    pub fn new(store: ConversationStore) -> (r: ConversationRegistry<S>)
        ensures
            r.live() == Map::<Seq<char>, S>::empty(),
            r.place() == store@,
    {
        ConversationRegistry { store, sessions: Vec::new() }
    }

    /// The store.
    pub fn store(&self) -> (r: &ConversationStore)
        ensures
            r@ == self.place(),
    {
        &self.store
    }

    /// The rows of the listing, the most recently written thread first.
    pub fn list(&self, conversations: Vec<Conversation>) -> (r: Vec<ThreadSummary>)
        ensures
            crate::fields::views_of(r@) == crate::order::ranked::<Conversation>(
                crate::fields::views_of(conversations@),
            ).map_values(|c: ConversationView| thread_of(c)),
    {
        let sorted = self.store.list(conversations);
        let ghost all = crate::fields::views_of(sorted@);
        let mut rows: Vec<ThreadSummary> = Vec::new();
        let mut i: usize = 0;
        while i < sorted.len()
            invariant
                i <= sorted.len(),
                all == crate::fields::views_of(sorted@),
                rows@.len() == i,
                forall|k: int| 0 <= k < i ==> (#[trigger] rows@[k])@ == thread_of(all[k]),
            decreases sorted.len() - i,
        {
            rows.push(ThreadSummary::of_conversation(sorted[i].clone()));
            i = i + 1;
        }
        assert(crate::fields::views_of(rows@) =~= all.map_values(
            |c: ConversationView| thread_of(c),
        ));
        rows
    }

    /// The id of the most recently written thread.
    pub fn latest(&self, conversations: Vec<Conversation>) -> (r: Option<String>)
        ensures
            ({
                let sorted = crate::order::ranked::<Conversation>(
                    crate::fields::views_of(conversations@),
                );
                crate::text::opt_text(r) == if sorted.len() == 0 {
                    None::<Seq<char>>
                } else {
                    Some(sorted[0].id)
                }
            }),
    {
        let sorted = self.store.list(conversations);
        let ghost all = crate::fields::views_of(sorted@);
        if sorted.len() == 0 {
            assert(all.len() == 0);
            return None;
        }
        assert(all[0] == sorted@[0]@);
        Some(sorted[0].id.clone())
    }

    /// The session of a new thread.
    pub fn create(&self, id: &str, title: Option<String>, now: &str) -> (r: ChatSession)
        ensures
            r@ == new_thread(id@, self.place(), crate::text::opt_text(title), now@),
    {
        let mut session = ChatSession::with_store(id, self.store.clone(), Ok(Loaded::Absent), now);
        if title.is_some() {
            session.set_title(title);
        }
        session
    }

    /// Opens a thread that is not live, given what loading it brought.
    pub fn open(&self, id: &str, loaded: Result<Loaded, ApiError>, now: &str) -> (r: Result<
        ChatSession,
        ApiError,
    >)
        ensures
            r is Ok <==> (loaded matches Ok(x) && x is Found),
            r matches Ok(s) ==> s@ == crate::session::opened(
                id@,
                now@,
                Some(self.place()),
                crate::session::found(loaded),
            ),
            r matches Err(e) ==> e@ == match loaded {
                Err(cause) => cause@,
                Ok(_) => no_thread(id@),
            },
    {
        match loaded {
            Err(e) => Err(e),
            Ok(Loaded::Found(c)) => Ok(
                ChatSession::with_store(id, self.store.clone(), Ok(Loaded::Found(c)), now),
            ),
            Ok(_) => {
                let mut message = "no thread with id ".to_owned();
                message.append(quote(id).as_str());
                Err(ApiError::new(ApiErrorKind::NotFound, message.as_str()))
            },
        }
    }

    /// The live session of a thread.
    pub fn get(&self, id: &str) -> (r: Option<&S>)
        ensures
            r is Some <==> self.live().dom().contains(id@),
            r matches Some(s) ==> *s == self.live()[id@],
    {
        let mut i: usize = self.sessions.len();
        assert(self.sessions@.take(i as int) =~= self.sessions@);
        while i > 0
            invariant
                i <= self.sessions.len(),
                self.live().dom().contains(id@) <==> live_map(
                    self.sessions@.take(i as int),
                ).dom().contains(id@),
                self.live().dom().contains(id@) ==> self.live()[id@] == live_map(
                    self.sessions@.take(i as int),
                )[id@],
            decreases i,
        {
            assert(self.sessions@.take(i as int).drop_last() =~= self.sessions@.take(i - 1));
            if same(self.sessions[i - 1].id.as_str(), id) {
                return Some(&self.sessions[i - 1].session);
            }
            i = i - 1;
        }
        None
    }

    /// Makes a session live under its id, in place of one that is.
    pub fn insert(&mut self, id: &str, session: S)
        ensures
            final(self).live() == old(self).live().insert(id@, session),
            final(self).place() == old(self).place(),
    {
        let _ = self.remove(id);
        let ghost before = self.sessions@;
        self.sessions.push(Live { id: id.to_owned(), session });
        assert(self.sessions@.drop_last() =~= before);
        assert(self.live() =~= old(self).live().insert(id@, session));
    }

    /// Makes a session live under its id, unless one is already.
    pub fn keep(&mut self, id: &str, session: S)
        ensures
            final(self).live() == if old(self).live().dom().contains(id@) {
                old(self).live()
            } else {
                old(self).live().insert(id@, session)
            },
            final(self).place() == old(self).place(),
    {
        if self.get(id).is_none() {
            self.insert(id, session);
        }
    }

    /// Takes a session out. The caller aborts its turn, if one is in progress.
    pub fn remove(&mut self, id: &str) -> (r: Option<S>)
        ensures
            r is Some <==> old(self).live().dom().contains(id@),
            r matches Some(s) ==> s == old(self).live()[id@],
            final(self).live() == old(self).live().remove(id@),
            final(self).place() == old(self).place(),
    {
        let ghost all = self.sessions@;
        let mut kept: Vec<Live<S>> = Vec::new();
        let mut out: Option<S> = None;
        assert(all.skip(0) =~= all);
        assert(all.take(0) =~= Seq::<Live<S>>::empty());
        let ghost mut i: int = 0;
        while self.sessions.len() > 0
            invariant
                0 <= i <= all.len(),
                self.sessions@ == all.skip(i),
                self.store == old(self).store,
                live_map(kept@) == live_map(all.take(i)).remove(id@),
                out is Some <==> live_map(all.take(i)).dom().contains(id@),
                out matches Some(s) ==> s == live_map(all.take(i))[id@],
            decreases self.sessions@.len(),
        {
            let ghost before = kept@;
            let next = self.sessions.remove(0);
            assert(all.take(i + 1).drop_last() =~= all.take(i));
            assert(all.take(i + 1).last() == all[i]);
            assert(self.sessions@ =~= all.skip(i + 1));
            if same(next.id.as_str(), id) {
                out = Some(next.session);
            } else {
                kept.push(next);
                assert(kept@.drop_last() =~= before);
            }
            proof {
                i = i + 1;
            }
            assert(live_map(kept@) =~= live_map(all.take(i)).remove(id@));
        }
        assert(all.take(i) =~= all);
        self.sessions = kept;
        out
    }
}

/// Threads are listed once each, the most recently written first, and the first
/// of them is the newest there is.
pub proof fn threads_are_listed_newest_first(all: Seq<ConversationView>, i: int, j: int)
    requires
        0 <= i < j < crate::order::ranked::<Conversation>(all).len(),
    ensures
        ({
            let rows = crate::order::ranked::<Conversation>(all);
            &&& rows.to_multiset() == all.to_multiset()
            &&& !crate::text::lex_lt(rows[i].updated_at, rows[j].updated_at)
        }),
{
    crate::order::ranked_is_sorted::<Conversation>(all);
    let rows = crate::order::ranked::<Conversation>(all);
    assert(!<Conversation as crate::order::Ranked>::before(rows[j], rows[i]));
}

/// The latest thread is one of those there are, and none of them was written
/// after it.
pub proof fn latest_thread_is_the_newest(all: Seq<ConversationView>, k: int)
    requires
        0 <= k < all.len(),
    ensures
        ({
            let rows = crate::order::ranked::<Conversation>(all);
            &&& rows.len() > 0
            &&& all.contains(rows[0])
            &&& !crate::text::lex_lt(rows[0].updated_at, all[k].updated_at)
        }),
{
    let rows = crate::order::ranked::<Conversation>(all);
    crate::order::ranked_is_sorted::<Conversation>(all);
    crate::order::ranked_members::<Conversation>(all, 0);
    assert(all.contains(all[k]));
    crate::order::ranked_keeps::<Conversation>(all, all[k]);
    let n = choose|n: int| 0 <= n < rows.len() && rows[n] == all[k];
    if n == 0 {
        crate::text::lemma_lex_irreflexive(all[k].updated_at);
    } else {
        assert(!<Conversation as crate::order::Ranked>::before(rows[n], rows[0]));
    }
}

/// A row says of its thread what the thread says of itself.
pub proof fn row_says_its_thread(c: ConversationView)
    ensures
        thread_of(c).id == c.id,
        thread_of(c).title == c.title,
        thread_of(c).created_at == c.created_at,
        thread_of(c).updated_at == c.updated_at,
        thread_of(c).usage == c.usage,
        c.messages.len() <= usize::MAX ==> thread_of(c).message_count == c.messages.len(),
{
}

/// A new thread has the title it was given and the store that it belongs to, and
/// nothing was said in it.
pub proof fn new_thread_is_empty(
    id: Seq<char>,
    store: Seq<char>,
    title: Option<Seq<char>>,
    now: Seq<char>,
)
    ensures
        new_thread(id, store, title, now).title == title,
        new_thread(id, store, title, now).id == id,
        new_thread(id, store, title, now).history.len() == 0,
{
}

/// Two conversations never share a file.
pub proof fn conversations_have_their_own_files(dir: Seq<char>, a: Seq<char>, b: Seq<char>)
    requires
        a != b,
    ensures
        crate::conversations::conversation_path(dir, a) != crate::conversations::conversation_path(
            dir,
            b,
        ),
{
    let x = crate::conversations::conversation_path(dir, a);
    let y = crate::conversations::conversation_path(dir, b);
    reveal_strlit("/");
    reveal_strlit(".json");
    if x == y {
        let n = x.len() - 5 - a.len();
        assert(x.len() == y.len());
        assert(a.len() == b.len());
        assert(x.subrange(n, n + a.len()) =~= a);
        assert(y.subrange(n, n + b.len()) =~= b);
    }
}

/// The wire form of a row says the row, each value under its own name.
pub proof fn listing_says_its_rows(t: ThreadView)
    ensures
        ({
            let j = thread_json(t);
            &&& crate::fields::str_at(j, "id"@) == Some(t.id)
            &&& crate::fields::str_at(j, "title"@) == t.title
            &&& crate::fields::str_at(j, "createdAt"@) == Some(t.created_at)
            &&& crate::fields::str_at(j, "updatedAt"@) == Some(t.updated_at)
            &&& crate::fields::u64_at(j, "messageCount"@) == Some(t.message_count as u64)
            &&& crate::fields::member(j, "usage"@) == Some(crate::events_json::usage_json(t.usage))
        }),
{
    reveal_strlit("id");
    reveal_strlit("createdAt");
    reveal_strlit("updatedAt");
    reveal_strlit("messageCount");
    reveal_strlit("usage");
    reveal_strlit("title");
    assert("id"@.len() == 2);
    assert("createdAt"@.len() == 9);
    assert("updatedAt"@.len() == 9);
    assert("messageCount"@.len() == 12);
    assert("usage"@.len() == 5);
    assert("title"@.len() == 5);
    assert("createdAt"@[0] != "updatedAt"@[0]);
    assert("usage"@[0] != "title"@[0]);
    let all = thread_fields(t);
    crate::json::lemma_collect_has(all, 0);
    let a = crate::fields::text_field("title"@, t.title).len() as int;
    crate::json::lemma_collect_has(all, 1 + a);
    crate::json::lemma_collect_has(all, 2 + a);
    crate::json::lemma_collect_has(all, 3 + a);
    crate::json::lemma_collect_has(all, 4 + a);
    if t.title is Some {
        crate::json::lemma_collect_has(all, 1);
    } else {
        crate::json::lemma_collect_lacks(all, "title"@);
    }
}

} // verus!

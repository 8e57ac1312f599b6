//! One digest: which conversations go to the reflector, what it is asked, and
//! what is written of its answers.

use vstd::prelude::*;

use crate::agent::fence;
use crate::agent::reflect::parse::{
    parse_reflection, PersonaRevision, ReflectedNote, ReflectedNoteView, RevisionView,
};
use crate::agent::reflect::{ReflectOutcome, ReflectStatus};
use crate::audit::{AuditEntry, AuditEntryView};
use crate::conversations::{Conversation, ConversationView, StoredMessage};
use crate::error::{ApiError, ApiErrorKind, ApiErrorView};
use crate::json::{Json, JsonView};
use crate::llm::types::{ChatMessageView, Role};
use crate::memory::store::{MemoryNote, MemoryNoteView};
use crate::text::{
    blank, char_count, copy_strings, decimal_of, empty, less, lower, same, trimmed, truncate_chars,
};
use crate::time::rfc3339_from_unix;

verus! {

/// How many conversations go into one call of the reflector.
pub const REFLECT_MAX_CONVERSATIONS: usize = 20;

/// The longest transcript of one conversation, in characters.
pub const REFLECT_TRANSCRIPT_MAX_CHARS: usize = 4000;

/// The tag of every note of the reflection.
pub const REFLECT_TAG: &'static str = "reflect";

/// The tag of the note about the persona.
pub const PERSONA_TAG: &'static str = "persona";

/// The longest persona that a revision may write, in characters.
pub const PERSONA_MAX_CHARS: usize = 8000;

/// How much longer than the persona a revision of it may be, in characters.
pub const PERSONA_MAX_GROWTH_CHARS: usize = 800;

/// Whether one of the messages has a role.
pub open spec fn speaks(m: Seq<ChatMessageView>, role: Role) -> bool {
    exists|i: int| 0 <= i < m.len() && (#[trigger] m[i]).role == role
}

/// Whether a conversation holds a question and an answer.
pub open spec fn exchange(c: ConversationView) -> bool {
    speaks(c.messages, Role::User) && speaks(c.messages, Role::Assistant)
}

/// Whether a conversation is to be digested: it changed at or after the cutoff,
/// and it holds an exchange.
pub open spec fn candidate(c: ConversationView, cutoff: Seq<char>) -> bool {
    !crate::text::lex_lt(c.updated_at, cutoff) && exchange(c)
}

/// The conversations that are to be digested, in their order.
pub open spec fn candidates(all: Seq<ConversationView>, cutoff: Seq<char>) -> Seq<ConversationView>
    decreases all.len(),
{
    if all.len() == 0 {
        seq![]
    } else if candidate(all.last(), cutoff) {
        candidates(all.drop_last(), cutoff).push(all.last())
    } else {
        candidates(all.drop_last(), cutoff)
    }
}

/// Whether one of the messages has a role.
fn has_role(messages: &Vec<StoredMessage>, role: Role) -> (r: bool)
    ensures
        r == speaks(crate::fields::views_of(messages@), role),
{
    let ghost m = crate::fields::views_of(messages@);
    let mut i: usize = 0;
    while i < messages.len()
        invariant
            i <= messages.len(),
            m == crate::fields::views_of(messages@),
            forall|k: int| 0 <= k < i ==> (#[trigger] m[k]).role != role,
        decreases messages.len() - i,
    {
        assert(m[i as int] == messages@[i as int]@);
        if messages[i].role == role {
            return true;
        }
        i = i + 1;
    }
    false
}

/// Whether a conversation holds a question and an answer.
pub fn has_exchange(conversation: &Conversation) -> (r: bool)
    ensures
        r == exchange(conversation@),
{
    has_role(&conversation.messages, Role::User) && has_role(
        &conversation.messages,
        Role::Assistant,
    )
}

/// One line of a transcript.
pub open spec fn spoken(m: ChatMessageView) -> Seq<char> {
    "["@ + crate::llm::types::role_name(m.role) + "] "@ + m.content + "\n"@
}

/// What the first `k` messages say, up to the message that fills the bound.
pub open spec fn spoken_first(m: Seq<ChatMessageView>, k: int) -> Seq<char>
    decreases k,
{
    if k <= 0 || k > m.len() {
        Seq::empty()
    } else {
        let before = spoken_first(m, k - 1);
        if before.len() >= REFLECT_TRANSCRIPT_MAX_CHARS {
            before
        } else {
            before + spoken(m[k - 1])
        }
    }
}

/// The bounded transcript of a conversation.
pub open spec fn transcript_of(m: Seq<ChatMessageView>) -> Seq<char> {
    crate::text::cut_text(spoken_first(m, m.len() as int), REFLECT_TRANSCRIPT_MAX_CHARS as int)
}

/// Once the bound is filled, no further message counts.
proof fn lemma_filled(m: Seq<ChatMessageView>, k: int, n: int)
    requires
        0 <= k <= n <= m.len(),
        spoken_first(m, k).len() >= REFLECT_TRANSCRIPT_MAX_CHARS,
    ensures
        spoken_first(m, n) == spoken_first(m, k),
    decreases n,
{
    if k < n {
        lemma_filled(m, k, n - 1);
    }
}

/// The bounded transcript of a conversation, one `[role] content` line for each
/// message.
pub fn transcript(conversation: &Conversation) -> (r: String)
    ensures
        r@ == transcript_of(conversation@.messages),
        r@.len() <= REFLECT_TRANSCRIPT_MAX_CHARS,
{
    let ghost m = conversation@.messages;
    let mut text = String::new();
    assert(text@ =~= Seq::<char>::empty());
    let mut i: usize = 0;
    while i < conversation.messages.len()
        invariant_except_break
            text@ == spoken_first(m, i as int),
            text@.len() < REFLECT_TRANSCRIPT_MAX_CHARS,
        invariant
            i <= conversation.messages.len(),
            m == crate::fields::views_of(conversation.messages@),
        ensures
            text@ == spoken_first(m, m.len() as int),
        decreases conversation.messages.len() - i,
    {
        assert(m[i as int] == conversation.messages@[i as int]@);
        let ghost before = text@;
        text.append("[");
        text.append(conversation.messages[i].role.wire_name());
        text.append("] ");
        text.append(conversation.messages[i].content.as_str());
        text.append("\n");
        assert(text@ =~= before + spoken(m[i as int]));
        i = i + 1;
        if char_count(text.as_str()) >= REFLECT_TRANSCRIPT_MAX_CHARS {
            proof {
                lemma_filled(m, i as int, m.len() as int);
            }
            break;
        }
    }
    truncate_chars(text.as_str(), REFLECT_TRANSCRIPT_MAX_CHARS)
}

/// What a conversation is called in a digest: its title, else its id.
pub open spec fn source_of(c: ConversationView) -> Seq<char> {
    match c.title {
        Some(t) => if crate::text::trim(t).len() == 0 {
            c.id
        } else {
            t
        },
        None => c.id,
    }
}

/// The fenced transcripts of conversations.
pub open spec fn fenced_all(batch: Seq<ConversationView>) -> Seq<char>
    decreases batch.len(),
{
    if batch.len() == 0 {
        Seq::empty()
    } else {
        let c = batch.last();
        fenced_all(batch.drop_last()) + "\n"@ + crate::agent::fenced(
            "conversation "@ + source_of(c),
            transcript_of(c.messages),
        )
    }
}

/// What stands before the transcripts.
pub open spec fn digest_intro(persona: Option<Seq<char>>) -> Seq<char> {
    (match persona {
        Some(p) => "Assistant persona (write in this character):\n"@ + p + "\n\n"@,
        None => Seq::empty(),
    }) + "Conversations changed since the last reflection:\n"@
}

/// What the reflector is asked.
pub open spec fn digest_question(batch: Seq<ConversationView>, persona: Option<Seq<char>>) -> Seq<
    char,
> {
    digest_intro(persona) + fenced_all(batch)
}

/// What the reflector is asked about the first `count` conversations: the
/// persona, where there is one, and every transcript fenced as data.
pub fn digest_content(
    conversations: &Vec<Conversation>,
    count: usize,
    persona: &Option<String>,
) -> (r: String)
    requires
        count <= conversations@.len(),
    ensures
        r@ == digest_question(
            crate::fields::views_of(conversations@).take(count as int),
            crate::text::opt_text(*persona),
        ),
{
    let ghost all = crate::fields::views_of(conversations@);
    let mut content = String::new();
    if let Some(p) = persona {
        content.append("Assistant persona (write in this character):\n");
        content.append(p.as_str());
        content.append("\n\n");
    }
    content.append("Conversations changed since the last reflection:\n");
    let ghost intro = content@;
    assert(intro =~= digest_intro(crate::text::opt_text(*persona)));
    assert(all.take(0) =~= Seq::<ConversationView>::empty());
    assert(intro + fenced_all(all.take(0)) =~= intro);
    let mut i: usize = 0;
    while i < count
        invariant
            i <= count <= conversations@.len(),
            all == crate::fields::views_of(conversations@),
            content@ == intro + fenced_all(all.take(i as int)),
        decreases count - i,
    {
        assert(all.take(i + 1).drop_last() =~= all.take(i as int));
        assert(all.take(i + 1).last() == conversations@[i as int]@);
        let conversation = &conversations[i];
        let title: String = match &conversation.title {
            Some(t) => if blank(t.as_str()) {
                conversation.id.clone()
            } else {
                t.clone()
            },
            None => conversation.id.clone(),
        };
        let mut source = "conversation ".to_owned();
        source.append(title.as_str());
        let ghost before = content@;
        content.append("\n");
        content.append(fence(source.as_str(), transcript(conversation).as_str()).as_str());
        assert(content@ =~= intro + fenced_all(all.take(i + 1)));
        i = i + 1;
    }
    content
}

/// A digest in progress: what is still to be digested, and what the reflector
/// wrote so far.
#[derive(Debug)]
pub struct Digest {
    pub remaining: Vec<Conversation>,
    pub persona: Option<String>,
    pub notes: Vec<ReflectedNote>,
    pub revision: Option<PersonaRevision>,
    pub digested: usize,
}

/// The content of a [`Digest`].
#[verifier::ext_equal]
pub struct DigestView {
    pub remaining: Seq<ConversationView>,
    pub persona: Option<Seq<char>>,
    pub notes: Seq<ReflectedNoteView>,
    pub revision: Option<RevisionView>,
    pub digested: int,
}

impl View for Digest {
    type V = DigestView;

    open spec fn view(&self) -> DigestView {
        DigestView {
            remaining: crate::fields::views_of(self.remaining@),
            persona: crate::text::opt_text(self.persona),
            notes: crate::fields::views_of(self.notes@),
            revision: crate::fields::opt_view(self.revision),
            digested: self.digested as int,
        }
    }
}

/// How many conversations the next call takes.
pub open spec fn batch_len(d: DigestView) -> int {
    if d.remaining.len() > REFLECT_MAX_CONVERSATIONS {
        REFLECT_MAX_CONVERSATIONS as int
    } else {
        d.remaining.len() as int
    }
}

/// What the reflector is asked next; nothing once all is digested.
pub open spec fn next_question(d: DigestView) -> Option<Seq<char>> {
    if d.remaining.len() == 0 {
        None
    } else {
        Some(digest_question(d.remaining.take(batch_len(d)), d.persona))
    }
}

/// The error of an answer without a note.
pub open spec fn no_notes_error() -> ApiErrorView {
    crate::error::failure(
        ApiErrorKind::Internal,
        "reflector produced no parsable notes; state left untouched"@,
    )
}

/// The digest after an answer of the reflector; none where the answer cannot be
/// used.
pub open spec fn accepted(d: DigestView, output: Seq<char>) -> Option<DigestView> {
    let r = crate::agent::reflect::parse::reflection_of(output);
    if r.notes.len() == 0 && r.persona is None {
        None
    } else {
        Some(
            DigestView {
                remaining: d.remaining.skip(batch_len(d)),
                notes: d.notes + r.notes,
                revision: if r.persona is Some {
                    r.persona
                } else {
                    d.revision
                },
                digested: d.digested + batch_len(d),
                persona: d.persona,
            },
        )
    }
}

/// A digest that has just begun.
pub open spec fn begun(
    all: Seq<ConversationView>,
    last_run: u64,
    persona: Option<Seq<char>>,
) -> DigestView {
    DigestView {
        remaining: candidates(all, crate::time::rfc3339(last_run as int)),
        persona: persona,
        notes: seq![],
        revision: None,
        digested: 0,
    }
}

/// What a digest keeps up: its count cannot overflow.
pub open spec fn digest_inv(d: DigestView) -> bool {
    d.digested + d.remaining.len() <= usize::MAX
}

/// Tags with the one of the reflection among them.
pub open spec fn reflect_tags(tags: Seq<Seq<char>>) -> Seq<Seq<char>> {
    if exists|i: int|
        0 <= i < tags.len() && crate::text::ascii_lower(#[trigger] tags[i]) == REFLECT_TAG@ {
        tags
    } else {
        tags.push(REFLECT_TAG@)
    }
}

/// Adds the tag of the reflection where it is missing.
pub fn with_reflect_tag(tags: Vec<String>) -> (r: Vec<String>)
    ensures
        crate::text::texts(r@) == reflect_tags(crate::text::texts(tags@)),
{
    let ghost all = crate::text::texts(tags@);
    let mut i: usize = 0;
    while i < tags.len()
        invariant
            i <= tags.len(),
            all == crate::text::texts(tags@),
            forall|k: int|
                0 <= k < i ==> crate::text::ascii_lower(#[trigger] all[k]) != REFLECT_TAG@,
        decreases tags.len() - i,
    {
        assert(all[i as int] == tags@[i as int]@);
        if same(lower(tags[i].as_str()).as_str(), REFLECT_TAG) {
            return tags;
        }
        i = i + 1;
    }
    let mut out = tags;
    out.push(REFLECT_TAG.to_owned());
    assert(crate::text::texts(out@) =~= all.push(REFLECT_TAG@));
    out
}

/// Whether one of the notes has a text, white space around it aside.
pub open spec fn among(notes: Seq<ReflectedNoteView>, body: Seq<char>) -> bool {
    exists|i: int|
        0 <= i < notes.len() && crate::text::trim((#[trigger] notes[i]).body) == crate::text::trim(
            body,
        )
}

/// The notes to be written: those whose text is not known yet, each with the
/// tag of the reflection.
pub open spec fn fresh_notes(
    notes: Seq<ReflectedNoteView>,
    known: Seq<MemoryNoteView>,
) -> Seq<ReflectedNoteView>
    decreases notes.len(),
{
    if notes.len() == 0 {
        seq![]
    } else {
        let before = fresh_notes(notes.drop_last(), known);
        let n = notes.last();
        if crate::memory::store::has_body(known, n.body) || among(before, n.body) {
            before
        } else {
            before.push(ReflectedNoteView { tags: reflect_tags(n.tags), body: n.body })
        }
    }
}

/// How long a revision of the persona may be.
pub open spec fn persona_cap(current: Seq<char>) -> int {
    if current.len() == 0 || current.len() + PERSONA_MAX_GROWTH_CHARS > PERSONA_MAX_CHARS {
        PERSONA_MAX_CHARS as int
    } else {
        current.len() + PERSONA_MAX_GROWTH_CHARS
    }
}

/// Whether a revision of the persona is applied: one is proposed, edits are
/// allowed, there is a file to write, and it is a small, genuine change.
pub open spec fn persona_applies(
    r: RevisionView,
    current: Seq<char>,
    edits: bool,
    has_file: bool,
) -> bool {
    let proposed = crate::text::trim(r.persona);
    &&& proposed.len() > 0
    &&& edits
    &&& has_file
    &&& proposed != current
    &&& proposed.len() <= persona_cap(current)
}

/// A text, or what stands for none.
pub open spec fn given(s: Seq<char>) -> Seq<char> {
    if crate::text::trim(s).len() == 0 {
        "(not given)"@
    } else {
        crate::text::trim(s)
    }
}

/// The note about the persona.
pub open spec fn persona_note(r: RevisionView, current: Seq<char>, applied: bool) -> Seq<char> {
    (if applied {
        "I revised my persona during my evening reflection.\n\n"@
    } else {
        "I reflected on my persona during my evening reflection.\n\n"@
    }) + "Why: "@ + given(r.why) + "\n\nHow: "@ + given(r.how) + "\n\n"@ + (if applied {
        "(persona changed from "@ + crate::text::decimal(current.len()) + " to "@
            + crate::text::decimal(crate::text::trim(r.persona).len()) + " characters)"@
    } else {
        "(I left my persona unchanged for now.)"@
    })
}

/// The audit line about the persona.
pub open spec fn persona_audit(r: RevisionView, current: Seq<char>, applied: bool) -> AuditEntryView {
    AuditEntryView {
        turn_id: 0,
        tool: PERSONA_TAG@,
        input: crate::json::object(
            seq![
                crate::json::entry("applied"@, JsonView::Bool(applied)),
                crate::json::entry("previousChars"@, JsonView::U64(current.len() as u64)),
                crate::json::entry(
                    "newChars"@,
                    if applied {
                        JsonView::U64(crate::text::trim(r.persona).len() as u64)
                    } else {
                        JsonView::Null
                    },
                ),
            ],
        ),
        decision: None,
        model: None,
        status: if applied {
            "edited"@
        } else {
            "considered"@
        },
        duration_ms: 0,
    }
}

/// What is written of a thought about the persona.
#[derive(Debug)]
pub struct PersonaRecord {
    /// The text of the persona file, where it changes.
    pub file: Option<String>,
    /// The note that keeps the thought.
    pub note: String,
    pub tags: Vec<String>,
    pub audit: AuditEntry,
}

/// The content of a [`PersonaRecord`].
#[verifier::ext_equal]
pub struct PersonaRecordView {
    pub file: Option<Seq<char>>,
    pub note: Seq<char>,
    pub tags: Seq<Seq<char>>,
    pub audit: AuditEntryView,
}

impl View for PersonaRecord {
    type V = PersonaRecordView;

    open spec fn view(&self) -> PersonaRecordView {
        PersonaRecordView {
            file: crate::text::opt_text(self.file),
            note: self.note@,
            tags: crate::text::texts(self.tags@),
            audit: self.audit@,
        }
    }
}

/// What is written of a thought about the persona.
pub open spec fn persona_record(
    r: RevisionView,
    current: Seq<char>,
    edits: bool,
    has_file: bool,
) -> PersonaRecordView {
    let applied = persona_applies(r, current, edits, has_file);
    PersonaRecordView {
        file: if applied {
            Some(crate::text::trim(r.persona) + "\n"@)
        } else {
            None
        },
        note: persona_note(r, current, applied),
        tags: seq![REFLECT_TAG@, PERSONA_TAG@],
        audit: persona_audit(r, current, applied),
    }
}

/// A text, or what stands for none.
fn given_or(s: &str) -> (r: String)
    ensures
        r@ == given(s@),
{
    let t = trimmed(s);
    if empty(t.as_str()) {
        "(not given)".to_owned()
    } else {
        t
    }
}

/// What is written of a thought about the persona: it is always kept as a note,
/// and a revision is applied only where it is a small, genuine change.
pub fn record_persona(
    revision: &PersonaRevision,
    current: &str,
    persona_edits: bool,
    has_file: bool,
) -> (r: PersonaRecord)
    ensures
        r@ == persona_record(revision@, current@, persona_edits, has_file),
{
    let proposed = trimmed(revision.persona.as_str());
    let previous: usize = char_count(current);
    let new: usize = char_count(proposed.as_str());
    let cap: usize = if previous == 0 || previous > PERSONA_MAX_CHARS - PERSONA_MAX_GROWTH_CHARS {
        PERSONA_MAX_CHARS
    } else {
        previous + PERSONA_MAX_GROWTH_CHARS
    };
    let applied = new > 0 && persona_edits && has_file && !same(proposed.as_str(), current) && new
        <= cap;
    let mut note: String = if applied {
        "I revised my persona during my evening reflection.\n\n".to_owned()
    } else {
        "I reflected on my persona during my evening reflection.\n\n".to_owned()
    };
    note.append("Why: ");
    note.append(given_or(revision.why.as_str()).as_str());
    note.append("\n\nHow: ");
    note.append(given_or(revision.how.as_str()).as_str());
    note.append("\n\n");
    let mut end: String = String::new();
    if applied {
        end.append("(persona changed from ");
        end.append(decimal_of(previous as u64).as_str());
        end.append(" to ");
        end.append(decimal_of(new as u64).as_str());
        end.append(" characters)");
    } else {
        end.append("(I left my persona unchanged for now.)");
    }
    note.append(end.as_str());
    assert(note@ =~= persona_note(revision@, current@, applied));
    let ghost f = |f: (&str, Json)| crate::json::entry(f.0@, f.1@);
    let fields: Vec<(&str, Json)> = vec![
        ("applied", Json::Bool(applied)),
        ("previousChars", Json::of_u64(previous as u64)),
        ("newChars", if applied { Json::of_u64(new as u64) } else { Json::Null }),
    ];
    assert(fields@.map_values(f) =~= seq![
        crate::json::entry("applied"@, JsonView::Bool(applied)),
        crate::json::entry("previousChars"@, JsonView::U64(current@.len() as u64)),
        crate::json::entry(
            "newChars"@,
            if applied {
                JsonView::U64(proposed@.len() as u64)
            } else {
                JsonView::Null
            },
        ),
    ]);
    let status: &str = if applied {
        "edited"
    } else {
        "considered"
    };
    let audit = AuditEntry {
        turn_id: 0,
        tool: PERSONA_TAG.to_owned(),
        input: Json::of_fields(fields),
        decision: None,
        model: None,
        status: status.to_owned(),
        duration_ms: 0,
    };
    let tags = vec![REFLECT_TAG.to_owned(), PERSONA_TAG.to_owned()];
    assert(crate::text::texts(tags@) =~= seq![REFLECT_TAG@, PERSONA_TAG@]);
    let file: Option<String> = if applied {
        let mut text = proposed;
        text.append("\n");
        Some(text)
    } else {
        None
    };
    PersonaRecord { file, note, tags, audit }
}

/// What a complete digest writes, and its outcome.
#[derive(Debug)]
pub struct Finish {
    pub notes: Vec<ReflectedNote>,
    pub persona: Option<PersonaRecord>,
    pub outcome: ReflectOutcome,
}

/// The content of a [`Finish`].
#[verifier::ext_equal]
pub struct FinishView {
    pub notes: Seq<ReflectedNoteView>,
    pub persona: Option<PersonaRecordView>,
    pub outcome: ReflectOutcome,
}

impl View for Finish {
    type V = FinishView;

    open spec fn view(&self) -> FinishView {
        FinishView {
            notes: crate::fields::views_of(self.notes@),
            persona: crate::fields::opt_view(self.persona),
            outcome: self.outcome,
        }
    }
}

/// What a complete digest writes, and its outcome.
pub open spec fn finished(
    d: DigestView,
    known: Seq<MemoryNoteView>,
    current: Seq<char>,
    edits: bool,
    has_file: bool,
) -> FinishView {
    let notes = fresh_notes(d.notes, known);
    FinishView {
        notes: notes,
        persona: match d.revision {
            Some(r) => Some(persona_record(r, current, edits, has_file)),
            None => None,
        },
        outcome: ReflectOutcome {
            status: ReflectStatus::Ran,
            conversations: d.digested as usize,
            notes: (notes.len() + if d.revision is Some {
                1int
            } else {
                0int
            }) as usize,
            persona_changed: match d.revision {
                Some(r) => persona_applies(r, current, edits, has_file),
                None => false,
            },
        },
    }
}

/// Whether one of the notes has a text.
fn is_among(notes: &Vec<ReflectedNote>, body: &str) -> (r: bool)
    ensures
        r == among(crate::fields::views_of(notes@), body@),
{
    let ghost all = crate::fields::views_of(notes@);
    let t = trimmed(body);
    let mut i: usize = 0;
    while i < notes.len()
        invariant
            i <= notes.len(),
            all == crate::fields::views_of(notes@),
            t@ == crate::text::trim(body@),
            forall|k: int| 0 <= k < i ==> crate::text::trim((#[trigger] all[k]).body) != t@,
        decreases notes.len() - i,
    {
        assert(all[i as int] == notes@[i as int]@);
        if same(trimmed(notes[i].body.as_str()).as_str(), t.as_str()) {
            return true;
        }
        i = i + 1;
    }
    false
}

/// Whether one of the kept notes has a text.
fn is_known(notes: &Vec<MemoryNote>, body: &str) -> (r: bool)
    ensures
        r == crate::memory::store::has_body(crate::fields::views_of(notes@), body@),
{
    let store = crate::memory::store::MemoryStore::new("");
    store.contains_body(notes, body)
}

impl Digest {
    /// Begins a digest of the listed conversations that changed since the last
    /// run. One from the very second of that run is digested again rather than
    /// left out.
    pub fn begin(
        conversations: &Vec<Conversation>,
        last_run: u64,
        persona: Option<String>,
    ) -> (r: Digest)
        ensures
            r@ == begun(
                crate::fields::views_of(conversations@),
                last_run,
                crate::text::opt_text(persona),
            ),
            digest_inv(r@),
    {
        let cutoff = rfc3339_from_unix(last_run);
        let ghost all = crate::fields::views_of(conversations@);
        let mut remaining: Vec<Conversation> = Vec::new();
        let mut i: usize = 0;
        assert(all.take(0) =~= seq![]);
        assert(crate::fields::views_of(remaining@) =~= candidates(all.take(0), cutoff@));
        while i < conversations.len()
            invariant
                i <= conversations.len(),
                all == crate::fields::views_of(conversations@),
                crate::fields::views_of(remaining@) == candidates(all.take(i as int), cutoff@),
            decreases conversations.len() - i,
        {
            assert(all.take(i + 1).drop_last() =~= all.take(i as int));
            assert(all.take(i + 1).last() == conversations@[i as int]@);
            let c = &conversations[i];
            let ghost before = crate::fields::views_of(remaining@);
            if !less(c.updated_at.as_str(), cutoff.as_str()) && has_exchange(c) {
                remaining.push(c.clone());
                assert(crate::fields::views_of(remaining@) =~= before.push(all[i as int]));
            }
            i = i + 1;
        }
        assert(all.take(i as int) =~= all);
        let count: usize = remaining.len();
        let r = Digest { remaining, persona, notes: Vec::new(), revision: None, digested: 0 };
        assert(r@.notes =~= seq![]);
        assert(r@.remaining.len() == count);
        r
    }

    /// How many conversations the next call takes.
    fn batch(&self) -> (r: usize)
        ensures
            r == batch_len(self@),
    {
        if self.remaining.len() > REFLECT_MAX_CONVERSATIONS {
            REFLECT_MAX_CONVERSATIONS
        } else {
            self.remaining.len()
        }
    }

    /// What the reflector is asked next; nothing once all is digested.
    pub fn next_content(&self) -> (r: Option<String>)
        ensures
            crate::text::opt_text(r) == next_question(self@),
    {
        if self.remaining.len() == 0 {
            return None;
        }
        Some(digest_content(&self.remaining, self.batch(), &self.persona))
    }

    /// Stages an answer of the reflector. One without a note or a thought fails,
    /// and nothing changes.
    pub fn accept(&mut self, output: &str) -> (r: Result<(), ApiError>)
        requires
            digest_inv(old(self)@),
        ensures
            r is Ok <==> accepted(old(self)@, output@) is Some,
            r is Ok ==> Some(final(self)@) == accepted(old(self)@, output@),
            r matches Err(e) ==> e@ == no_notes_error() && final(self)@ == old(self)@,
            digest_inv(final(self)@),
    {
        let ghost d = self@;
        let reflection = parse_reflection(output);
        if reflection.notes.len() == 0 && reflection.persona.is_none() {
            return Err(
                ApiError::internal("reflector produced no parsable notes; state left untouched"),
            );
        }
        let n = self.batch();
        let mut rest: Vec<Conversation> = Vec::new();
        let mut i: usize = n;
        while i < self.remaining.len()
            invariant
                n <= i <= self.remaining.len(),
                rest@.len() == i - n,
                forall|k: int| 0 <= k < rest@.len() ==> (#[trigger] rest@[k])@
                    == self.remaining@[k + n]@,
            decreases self.remaining.len() - i,
        {
            rest.push(self.remaining[i].clone());
            i = i + 1;
        }
        assert(crate::fields::views_of(rest@) =~= d.remaining.skip(n as int));
        self.digested = self.digested + n;
        self.remaining = rest;
        let ghost made = reflection.notes@;
        let mut notes = reflection.notes;
        self.notes.append(&mut notes);
        assert(crate::fields::views_of(self.notes@) =~= d.notes + crate::fields::views_of(made));
        if reflection.persona.is_some() {
            self.revision = reflection.persona;
        }
        Ok(())
    }

    /// What a complete digest writes: the notes that are not known yet and the
    /// thought about the persona.
    pub fn finish(
        &self,
        known: &Vec<MemoryNote>,
        current: &str,
        persona_edits: bool,
        has_file: bool,
    ) -> (r: Finish)
        requires
            self.notes@.len() < usize::MAX,
        ensures
            r@ == finished(
                self@,
                crate::fields::views_of(known@),
                current@,
                persona_edits,
                has_file,
            ),
    {
        let ghost all = self@.notes;
        let ghost kept = crate::fields::views_of(known@);
        let mut notes: Vec<ReflectedNote> = Vec::new();
        let mut i: usize = 0;
        assert(all.take(0) =~= seq![]);
        assert(crate::fields::views_of(notes@) =~= fresh_notes(all.take(0), kept));
        while i < self.notes.len()
            invariant
                i <= self.notes.len(),
                all == crate::fields::views_of(self.notes@),
                kept == crate::fields::views_of(known@),
                crate::fields::views_of(notes@) == fresh_notes(all.take(i as int), kept),
                notes@.len() <= i,
            decreases self.notes.len() - i,
        {
            assert(all.take(i + 1).drop_last() =~= all.take(i as int));
            assert(all.take(i + 1).last() == self.notes@[i as int]@);
            let n = &self.notes[i];
            let ghost before = crate::fields::views_of(notes@);
            if !is_known(known, n.body.as_str()) && !is_among(&notes, n.body.as_str()) {
                let note = ReflectedNote {
                    tags: with_reflect_tag(copy_strings(&n.tags)),
                    body: n.body.clone(),
                };
                notes.push(note);
                assert(crate::fields::views_of(notes@) =~= before.push(note@));
            }
            i = i + 1;
        }
        assert(all.take(i as int) =~= all);
        assert(crate::fields::views_of(notes@).len() == notes@.len());
        let mut written: usize = notes.len();
        let mut changed = false;
        let persona: Option<PersonaRecord> = match &self.revision {
            Some(r) => {
                let record = record_persona(r, current, persona_edits, has_file);
                changed = record.file.is_some();
                written = written + 1;
                Some(record)
            },
            None => None,
        };
        let outcome = ReflectOutcome {
            status: ReflectStatus::Ran,
            conversations: self.digested,
            notes: written,
            persona_changed: changed,
        };
        Finish { notes, persona, outcome }
    }
}

/// The audit line of a digest.
pub open spec fn digest_audit_of(
    r: Result<ReflectOutcome, ApiErrorView>,
    duration_ms: u64,
) -> AuditEntryView {
    AuditEntryView {
        turn_id: 0,
        tool: "reflect"@,
        input: match r {
            Ok(o) => crate::json::object(
                seq![
                    crate::json::entry("conversations"@, JsonView::U64(o.conversations as u64)),
                    crate::json::entry("notes"@, JsonView::U64(o.notes as u64)),
                    crate::json::entry("persona_changed"@, JsonView::Bool(o.persona_changed)),
                ],
            ),
            Err(_) => crate::json::object(seq![]),
        },
        decision: None,
        model: None,
        status: match r {
            Ok(_) => "ok"@,
            Err(e) => "error: "@ + crate::error::kind_name(e.kind),
        },
        duration_ms: duration_ms,
    }
}

/// The audit line of a digest, whether it succeeded or not.
pub fn digest_audit(result: &Result<ReflectOutcome, ApiError>, duration_ms: u64) -> (r: AuditEntry)
    ensures
        r@ == digest_audit_of(
            match *result {
                Ok(o) => Ok(o),
                Err(e) => Err(e@),
            },
            duration_ms,
        ),
{
    let ghost f = |f: (&str, Json)| crate::json::entry(f.0@, f.1@);
    let mut status = String::new();
    let input: Json = match result {
        Ok(o) => {
            status.append("ok");
            let fields: Vec<(&str, Json)> = vec![
                ("conversations", Json::of_u64(o.conversations as u64)),
                ("notes", Json::of_u64(o.notes as u64)),
                ("persona_changed", Json::Bool(o.persona_changed)),
            ];
            assert(fields@.map_values(f) =~= seq![
                crate::json::entry("conversations"@, JsonView::U64(o.conversations as u64)),
                crate::json::entry("notes"@, JsonView::U64(o.notes as u64)),
                crate::json::entry("persona_changed"@, JsonView::Bool(o.persona_changed)),
            ]);
            assert(status@ =~= "ok"@);
            Json::of_fields(fields)
        },
        Err(e) => {
            status.append("error: ");
            status.append(e.kind.as_str());
            assert(status@ =~= "error: "@ + crate::error::kind_name(e.kind));
            let fields: Vec<(&str, Json)> = Vec::new();
            assert(fields@.map_values(f) =~= seq![]);
            Json::of_fields(fields)
        },
    };
    AuditEntry {
        turn_id: 0,
        tool: "reflect".to_owned(),
        input,
        decision: None,
        model: None,
        status,
        duration_ms,
    }
}

} // verus!

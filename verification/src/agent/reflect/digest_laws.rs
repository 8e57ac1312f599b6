//! What holds of every digest: what the reflector is shown, and what is written
//! of its answers.

use vstd::prelude::*;

use crate::agent::reflect::digest::{
    accepted, among, batch_len, candidate, candidates, digest_question, fenced_all, finished,
    fresh_notes, next_question, persona_record, reflect_tags, source_of, spoken_first,
    transcript, transcript_of, DigestView, PERSONA_MAX_CHARS, PERSONA_MAX_GROWTH_CHARS, PERSONA_TAG,
    REFLECT_TAG, REFLECT_TRANSCRIPT_MAX_CHARS,
};
use crate::agent::reflect::parse::{reflection_of, ReflectedNoteView, RevisionView};
use crate::agent::reflect::{due, minutes_of, signed, LocalClock, ReflectStatus, Reflector};
use crate::conversations::{Conversation, ConversationView};
use crate::llm::types::{ChatMessageView, Role};
use crate::memory::store::{local_day, MemoryNoteView};

verus! {

/// The lines of all messages, one after the other.
pub open spec fn all_lines(m: Seq<ChatMessageView>) -> Seq<char>
    decreases m.len(),
{
    if m.len() == 0 {
        Seq::empty()
    } else {
        all_lines(m.drop_last()) + ("["@ + crate::llm::types::role_name(m.last().role) + "] "@
            + m.last().content + "\n"@)
    }
}

/// Whether a text is the start of another.
pub open spec fn starts_it(a: Seq<char>, b: Seq<char>) -> bool {
    a.len() <= b.len() && b.take(a.len() as int) == a
}

/// What the first messages say is all of it, or as much as fills the bound.
proof fn lemma_spoken(m: Seq<ChatMessageView>, k: int)
    requires
        0 <= k <= m.len(),
    ensures
        starts_it(spoken_first(m, k), all_lines(m.take(k))),
        spoken_first(m, k) == all_lines(m.take(k)) || spoken_first(m, k).len()
            >= REFLECT_TRANSCRIPT_MAX_CHARS,
    decreases k,
{
    let all = all_lines(m.take(k));
    if k > 0 {
        lemma_spoken(m, k - 1);
        assert(m.take(k).drop_last() =~= m.take(k - 1));
        assert(m.take(k).last() == m[k - 1]);
        let less = all_lines(m.take(k - 1));
        let s = spoken_first(m, k);
        let before = spoken_first(m, k - 1);
        if before.len() >= REFLECT_TRANSCRIPT_MAX_CHARS {
            assert(all.take(s.len() as int) =~= less.take(s.len() as int));
        } else {
            assert(s =~= all);
            assert(all.take(s.len() as int) =~= s);
        }
    } else {
        assert(m.take(0).len() == 0);
        assert(all.take(0) =~= spoken_first(m, 0));
    }
}

/// The transcript of a conversation is what every message of it says, in order;
/// only what is longer than the bound is cut to it, and its last place may be an
/// ellipsis then.
pub proof fn transcript_covers_every_message(m: Seq<ChatMessageView>)
    ensures
        all_lines(m).len() <= REFLECT_TRANSCRIPT_MAX_CHARS ==> transcript_of(m) == all_lines(m),
        all_lines(m).len() > REFLECT_TRANSCRIPT_MAX_CHARS ==> transcript_of(m).len()
            == REFLECT_TRANSCRIPT_MAX_CHARS && transcript_of(m).drop_last() == all_lines(m).take(
            REFLECT_TRANSCRIPT_MAX_CHARS - 1,
        ),
{
    lemma_spoken(m, m.len() as int);
    assert(m.take(m.len() as int) =~= m);
    let s = spoken_first(m, m.len() as int);
    let all = all_lines(m);
    if all.len() > REFLECT_TRANSCRIPT_MAX_CHARS {
        assert(transcript_of(m).drop_last() =~= all.take(REFLECT_TRANSCRIPT_MAX_CHARS - 1));
    } else {
        assert(s =~= all);
    }
}

/// The conversations that are digested are those among all that changed and hold
/// an exchange, in their order and none of them missing.
pub proof fn candidates_are_all_that_changed(all: Seq<ConversationView>, cutoff: Seq<char>)
    ensures
        candidates(all, cutoff) == all.filter(
            |c: ConversationView|
                !crate::text::lex_lt(c.updated_at, cutoff) && (exists|i: int|
                    0 <= i < c.messages.len() && (#[trigger] c.messages[i]).role == Role::User) && (
                exists|i: int|
                    0 <= i < c.messages.len() && (#[trigger] c.messages[i]).role
                        == Role::Assistant),
        ),
    decreases all.len(),
{
    reveal(Seq::filter);
    if all.len() > 0 {
        candidates_are_all_that_changed(all.drop_last(), cutoff);
    }
}

/// A conversation that did not change since the second of the last run is not
/// digested again.
pub proof fn unchanged_conversation_is_left_out(c: ConversationView, changed: int, last_run: int)
    requires
        0 <= changed < last_run < crate::time::YEAR_10000,
        c.updated_at == crate::time::rfc3339(changed),
    ensures
        !candidate(c, crate::time::rfc3339(last_run)),
{
    crate::time::timestamps_sort_by_time(changed, last_run);
}

/// The reflector is shown every conversation of a batch: what it is shown of two
/// lists is the one after the other, and of one conversation its transcript,
/// fenced, under its title or its id.
pub proof fn every_conversation_is_shown(a: Seq<ConversationView>, b: Seq<ConversationView>)
    ensures
        fenced_all(a + b) == fenced_all(a) + fenced_all(b),
        a.len() == 0 ==> fenced_all(a).len() == 0,
        a.len() == 1 ==> fenced_all(a) == "\n"@ + crate::agent::fenced(
            "conversation "@ + source_of(a[0]),
            transcript_of(a[0].messages),
        ),
    decreases b.len(),
{
    if b.len() == 0 {
        assert(a + b =~= a);
        assert(fenced_all(a) + fenced_all(b) =~= fenced_all(a));
    } else {
        assert((a + b).drop_last() =~= a + b.drop_last());
        assert((a + b).last() == b.last());
        every_conversation_is_shown(a, b.drop_last());
        assert(fenced_all(a + b) =~= fenced_all(a) + fenced_all(b));
    }
    if a.len() == 1 {
        reveal_with_fuel(fenced_all, 2);
        assert(a.drop_last() =~= seq![]);
        assert(fenced_all(a) =~= "\n"@ + crate::agent::fenced(
            "conversation "@ + source_of(a[0]),
            transcript_of(a[0].messages),
        ));
    }
}

/// A conversation goes by its title, and by its id where the title is blank or
/// missing.
pub proof fn conversation_goes_by_its_title(c: ConversationView)
    ensures
        match c.title {
            Some(t) => if crate::text::trim(t).len() > 0 {
                source_of(c) == t
            } else {
                source_of(c) == c.id
            },
            None => source_of(c) == c.id,
        },
{
}

/// What the reflector is asked ends with the conversations, and begins with the
/// persona where there is one.
pub proof fn question_holds_persona_and_conversations(
    batch: Seq<ConversationView>,
    persona: Option<Seq<char>>,
)
    ensures
        ({
            let q = digest_question(batch, persona);
            let shown = fenced_all(batch);
            &&& q.len() >= shown.len()
            &&& q.skip(q.len() - shown.len()) == shown
            &&& persona matches Some(p) ==> starts_it(
                "Assistant persona (write in this character):\n"@ + p + "\n\n"@,
                q,
            )
        }),
{
    let q = digest_question(batch, persona);
    let shown = fenced_all(batch);
    assert(q.skip(q.len() - shown.len()) =~= shown);
    if let Some(p) = persona {
        let head = "Assistant persona (write in this character):\n"@ + p + "\n\n"@;
        assert(q.take(head.len() as int) =~= head);
    }
}

/// A digest goes through its conversations from the first on, twenty at a time:
/// what is asked is about the first of what remains, an answer takes exactly
/// those away, and what the answer says is added to what was gathered.
pub proof fn digest_goes_through_all(d: DigestView, output: Seq<char>)
    ensures
        ({
            let n = if d.remaining.len() <= 20 {
                d.remaining.len() as int
            } else {
                20
            };
            &&& d.remaining.len() == 0 <==> next_question(d) is None
            &&& next_question(d) matches Some(q) ==> q == digest_question(
                d.remaining.take(n),
                d.persona,
            )
            &&& accepted(d, output) is None <==> reflection_of(output).notes.len() == 0
                && reflection_of(output).persona is None
            &&& accepted(d, output) matches Some(e) ==> d.remaining.take(n) + e.remaining
                == d.remaining && e.digested == d.digested + n && e.notes == d.notes
                + reflection_of(output).notes && e.persona == d.persona && e.revision == (
            match reflection_of(output).persona {
                Some(p) => Some(p),
                None => d.revision,
            })
        }),
{
    let n = batch_len(d);
    assert(d.remaining.take(n) + d.remaining.skip(n) =~= d.remaining);
}

/// Whether a list of tags has the tag of the reflection.
pub open spec fn is_tagged(tags: Seq<Seq<char>>) -> bool {
    exists|i: int|
        0 <= i < tags.len() && crate::text::ascii_lower(#[trigger] tags[i]) == "reflect"@
}

/// Whether two texts are the same, white space around them aside.
pub open spec fn same_text(a: Seq<char>, b: Seq<char>) -> bool {
    crate::text::trim(a) == crate::text::trim(b)
}

/// The tag of the reflection is added where it is missing, and nothing else.
proof fn lemma_tagged(tags: Seq<Seq<char>>)
    ensures
        is_tagged(reflect_tags(tags)),
        reflect_tags(tags).len() >= tags.len(),
        reflect_tags(tags).take(tags.len() as int) == tags,
        reflect_tags(tags).len() <= tags.len() + 1,
{
    reveal_strlit("reflect");
    let t = reflect_tags(tags);
    assert(t.take(tags.len() as int) =~= tags);
    assert(crate::text::ascii_lower("reflect"@) =~= "reflect"@);
    if t.len() > tags.len() {
        assert(crate::text::ascii_lower(t[t.len() - 1]) == "reflect"@);
    }
}

/// No note is lost: what the reflector wrote is known already or is written.
pub proof fn no_note_is_lost(
    notes: Seq<ReflectedNoteView>,
    known: Seq<MemoryNoteView>,
    i: int,
)
    requires
        0 <= i < notes.len(),
    ensures
        (exists|k: int|
            0 <= k < known.len() && same_text((#[trigger] known[k]).content, notes[i].body)) || (
        exists|k: int|
            0 <= k < fresh_notes(notes, known).len() && same_text(
                (#[trigger] fresh_notes(notes, known)[k]).body,
                notes[i].body,
            )),
    decreases notes.len(),
{
    let less = notes.drop_last();
    let f = fresh_notes(notes, known);
    let g = fresh_notes(less, known);
    let n = notes.last();
    if i < less.len() {
        no_note_is_lost(less, known, i);
        assert(less[i] == notes[i]);
        if exists|k: int| 0 <= k < g.len() && same_text((#[trigger] g[k]).body, notes[i].body) {
            let k = choose|k: int|
                0 <= k < g.len() && same_text((#[trigger] g[k]).body, notes[i].body);
            assert(f[k] == g[k]);
        }
    } else {
        if crate::memory::store::has_body(known, n.body) {
            let k = choose|k: int|
                0 <= k < known.len() && crate::text::trim((#[trigger] known[k]).content)
                    == crate::text::trim(n.body);
            assert(same_text(known[k].content, notes[i].body));
        } else if among(g, n.body) {
            let k = choose|k: int|
                0 <= k < g.len() && crate::text::trim((#[trigger] g[k]).body)
                    == crate::text::trim(n.body);
            assert(same_text(f[k].body, notes[i].body));
        } else {
            assert(same_text(f[f.len() - 1].body, notes[i].body));
        }
    }
}

/// What is written is new: it comes from the reflector with its tags and the tag
/// of the reflection, and its text is neither known nor written twice.
pub proof fn written_notes_are_new(
    notes: Seq<ReflectedNoteView>,
    known: Seq<MemoryNoteView>,
    k: int,
)
    requires
        0 <= k < fresh_notes(notes, known).len(),
    ensures
        ({
            let f = fresh_notes(notes, known);
            &&& is_tagged(f[k].tags)
            &&& exists|i: int|
                0 <= i < notes.len() && (#[trigger] notes[i]).body == f[k].body
                    && f[k].tags.len() >= notes[i].tags.len() && f[k].tags.take(
                    notes[i].tags.len() as int,
                ) == notes[i].tags
            &&& forall|j: int|
                0 <= j < known.len() ==> !same_text((#[trigger] known[j]).content, f[k].body)
            &&& forall|j: int| 0 <= j < k ==> !same_text((#[trigger] f[j]).body, f[k].body)
        }),
    decreases notes.len(),
{
    let less = notes.drop_last();
    let f = fresh_notes(notes, known);
    let g = fresh_notes(less, known);
    let n = notes.last();
    if k < g.len() {
        written_notes_are_new(less, known, k);
        assert(f[k] == g[k]);
        let i = choose|i: int|
            0 <= i < less.len() && (#[trigger] less[i]).body == g[k].body && g[k].tags.len()
                >= less[i].tags.len() && g[k].tags.take(less[i].tags.len() as int) == less[i].tags;
        assert(notes[i] == less[i]);
        assert forall|j: int| 0 <= j < k implies !same_text((#[trigger] f[j]).body, f[k].body) by {
            assert(f[j] == g[j]);
        }
    } else {
        lemma_tagged(n.tags);
        assert(notes[notes.len() - 1].body == f[k].body);
        assert forall|j: int| 0 <= j < known.len() implies !same_text(
            (#[trigger] known[j]).content,
            f[k].body,
        ) by {
            if same_text(known[j].content, f[k].body) {
                assert(crate::memory::store::has_body(known, n.body));
            }
        }
        assert forall|j: int| 0 <= j < k implies !same_text((#[trigger] f[j]).body, f[k].body) by {
            assert(f[j] == g[j]);
            if same_text(g[j].body, n.body) {
                assert(among(g, n.body));
            }
        }
    }
}

/// A small, genuine change of the persona is applied: the file becomes what was
/// proposed. Anything else leaves the file as it is.
pub proof fn small_change_is_applied(
    r: RevisionView,
    current: Seq<char>,
    edits: bool,
    has_file: bool,
)
    ensures
        ({
            let proposed = crate::text::trim(r.persona);
            let genuine = proposed.len() > 0 && proposed != current;
            let small = proposed.len() <= PERSONA_MAX_CHARS && (current.len() == 0
                || proposed.len() <= current.len() + PERSONA_MAX_GROWTH_CHARS);
            persona_record(r, current, edits, has_file).file == (if edits && has_file && genuine
                && small {
                Some(proposed + "\n"@)
            } else {
                None
            })
        }),
        PERSONA_MAX_CHARS == 8000,
        PERSONA_MAX_GROWTH_CHARS == 800,
{
}

/// The note about the persona says why and how, as the reflector put it, and the
/// audit line says whether anything changed.
pub proof fn persona_note_says_why_and_how(
    r: RevisionView,
    current: Seq<char>,
    edits: bool,
    has_file: bool,
)
    requires
        crate::text::trim(r.why).len() > 0,
        crate::text::trim(r.how).len() > 0,
    ensures
        ({
            let p = persona_record(r, current, edits, has_file);
            let said = "Why: "@ + crate::text::trim(r.why) + "\n\nHow: "@ + crate::text::trim(
                r.how,
            ) + "\n\n"@;
            &&& exists|i: int| #[trigger] crate::text::occurs_at(p.note, said, i)
            &&& p.tags == seq!["reflect"@, "persona"@]
            &&& p.audit.tool == "persona"@
            &&& p.audit.status == (if p.file is Some {
                "edited"@
            } else {
                "considered"@
            })
        }),
{
    let p = persona_record(r, current, edits, has_file);
    let said = "Why: "@ + crate::text::trim(r.why) + "\n\nHow: "@ + crate::text::trim(r.how)
        + "\n\n"@;
    let n = if p.file is Some {
        "I revised my persona during my evening reflection.\n\n"@.len()
    } else {
        "I reflected on my persona during my evening reflection.\n\n"@.len()
    } as int;
    assert(p.note.subrange(n, n + said.len()) =~= said);
    assert(crate::text::occurs_at(p.note, said, n));
}

/// What a digest reports is what it did: the conversations it digested, and the
/// notes it writes, one more where the persona was thought about.
pub proof fn outcome_counts_what_was_done(
    d: DigestView,
    known: Seq<MemoryNoteView>,
    current: Seq<char>,
    edits: bool,
    has_file: bool,
)
    requires
        0 <= d.digested <= usize::MAX,
        d.notes.len() < usize::MAX,
    ensures
        ({
            let f = finished(d, known, current, edits, has_file);
            &&& f.notes == fresh_notes(d.notes, known)
            &&& f.outcome.status == ReflectStatus::Ran
            &&& f.outcome.conversations == d.digested
            &&& f.outcome.notes == f.notes.len() + (if d.revision is Some {
                1int
            } else {
                0int
            })
            &&& match d.revision {
                Some(r) => f.persona == Some(persona_record(r, current, edits, has_file)),
                None => f.persona is None,
            }
        }),
{
    lemma_fresh_len(d.notes, known);
}

/// No more notes are written than the reflector wrote.
proof fn lemma_fresh_len(notes: Seq<ReflectedNoteView>, known: Seq<MemoryNoteView>)
    ensures
        fresh_notes(notes, known).len() <= notes.len(),
    decreases notes.len(),
{
    if notes.len() > 0 {
        lemma_fresh_len(notes.drop_last(), known);
    }
}

/// A run that was missed is due: the scheduled time came last today, or yesterday
/// where it is still to come, and the last run was on an earlier day.
pub proof fn missed_run_is_due(r: Reflector, now: u64, last_run: u64, clock: LocalClock)
    requires
        r.enabled,
    ensures
        ({
            let came = minutes_of(signed(now), clock.now) >= r.scheduled_minutes;
            let day = if came {
                local_day(signed(now), clock.now)
            } else {
                local_day(signed(now) - 86400, clock.day_before)
            };
            let last = local_day(signed(last_run), clock.last_run);
            &&& crate::text::lex_lt(last, day) ==> due(r, now, last_run, clock) is Some
            &&& due(r, now, last_run, clock) matches Some(c) ==> c.date == day && c.minutes
                == r.scheduled_minutes && !crate::text::lex_lt(day, last) && (last == day
                ==> minutes_of(signed(last_run), clock.last_run) < r.scheduled_minutes)
            &&& last == day && minutes_of(signed(last_run), clock.last_run) < r.scheduled_minutes
                ==> due(r, now, last_run, clock) is Some
        }),
{
    let last = local_day(signed(last_run), clock.last_run);
    let day = if minutes_of(signed(now), clock.now) >= r.scheduled_minutes {
        local_day(signed(now), clock.now)
    } else {
        local_day(signed(now) - 86400, clock.day_before)
    };
    crate::text::lemma_lex_irreflexive(last);
    if crate::text::lex_lt(last, day) && crate::text::lex_lt(day, last) {
        crate::text::lemma_lex_transitive(last, day, last);
    }
}

/// The bounds and tags of the reflection.
pub proof fn reflection_is_marked()
    ensures
        REFLECT_TAG@ == "reflect"@,
        PERSONA_TAG@ == "persona"@,
        REFLECT_TRANSCRIPT_MAX_CHARS == 4000,
{
}

/// What is returned as the transcript of a conversation is what every message of
/// it says, in order, as far as the bound reaches.
pub proof fn transcript_is_what_was_said(conversation: &Conversation, r: String)
    requires
        call_ensures(transcript, (conversation,), r),
    ensures
        all_lines(conversation@.messages).len() <= REFLECT_TRANSCRIPT_MAX_CHARS ==> r@ == all_lines(
            conversation@.messages,
        ),
        all_lines(conversation@.messages).len() > REFLECT_TRANSCRIPT_MAX_CHARS ==> r@.len()
            == REFLECT_TRANSCRIPT_MAX_CHARS && r@.drop_last() == all_lines(
            conversation@.messages,
        ).take(REFLECT_TRANSCRIPT_MAX_CHARS - 1),
{
    transcript_covers_every_message(conversation@.messages);
}

} // verus!

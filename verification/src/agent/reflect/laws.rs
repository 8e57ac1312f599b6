//! What holds of every reflection.

use vstd::prelude::*;

use crate::agent::reflect::digest::{
    accepted, among, batch_len, candidate, exchange, finished, fresh_notes, next_question,
    persona_record, DigestView, PERSONA_MAX_CHARS, PERSONA_MAX_GROWTH_CHARS,
    REFLECT_MAX_CONVERSATIONS,
};
use crate::agent::reflect::parse::{
    flushed, reflection_of, scanned, ReflectedNoteView, RevisionView, ScanView,
};
use crate::agent::reflect::{due, signed, LocalClock, Reflector};
use crate::conversations::ConversationView;
use crate::memory::store::MemoryNoteView;

verus! {

/// Whether every note has a text.
pub open spec fn all_filled(notes: Seq<ReflectedNoteView>) -> bool {
    forall|i: int| 0 <= i < notes.len() ==> (#[trigger] notes[i]).body.len() > 0
}

proof fn lemma_flushed_filled(s: ScanView)
    requires
        all_filled(s.notes),
    ensures
        all_filled(flushed(s).notes),
{
}

proof fn lemma_scanned_filled(lines: Seq<Seq<char>>)
    ensures
        all_filled(scanned(lines).notes),
    decreases lines.len(),
{
    if lines.len() > 0 {
        lemma_scanned_filled(lines.drop_last());
        lemma_flushed_filled(scanned(lines.drop_last()));
    }
}

/// No note of the reflector is empty, whatever it wrote.
pub proof fn notes_are_never_empty(text: Seq<char>)
    ensures
        all_filled(reflection_of(text).notes),
{
    lemma_scanned_filled(crate::text::line_seq(text));
    lemma_flushed_filled(scanned(crate::text::line_seq(text)));
}

/// A digest after several answers; none where one cannot be used.
pub open spec fn accepted_all(d: DigestView, outputs: Seq<Seq<char>>) -> Option<DigestView>
    decreases outputs.len(),
{
    if outputs.len() == 0 {
        Some(d)
    } else {
        match accepted_all(d, outputs.drop_last()) {
            Some(e) => accepted(e, outputs.last()),
            None => None,
        }
    }
}

/// No conversation is left behind: a digest that has nothing more to ask has
/// digested every conversation it began with.
pub proof fn every_changed_conversation_is_digested(d: DigestView, outputs: Seq<Seq<char>>)
    requires
        accepted_all(d, outputs) is Some,
    ensures
        ({
            let e = accepted_all(d, outputs)->Some_0;
            &&& e.digested + e.remaining.len() == d.digested + d.remaining.len()
            &&& next_question(e) is None ==> e.digested == d.digested + d.remaining.len()
        }),
    decreases outputs.len(),
{
    if outputs.len() > 0 {
        every_changed_conversation_is_digested(d, outputs.drop_last());
    }
}

/// A call of the reflector takes a bounded number of conversations, and at
/// least one.
pub proof fn batches_are_bounded(d: DigestView)
    ensures
        batch_len(d) <= REFLECT_MAX_CONVERSATIONS,
        d.remaining.len() > 0 ==> batch_len(d) > 0,
{
}

/// A conversation that changed at or after the second of the last run is
/// digested, if it holds an exchange.
pub proof fn changed_conversation_is_a_candidate(c: ConversationView, changed: int, last_run: int)
    requires
        0 <= last_run <= changed < crate::time::YEAR_10000,
        c.updated_at == crate::time::rfc3339(changed),
        exchange(c),
    ensures
        candidate(c, crate::time::rfc3339(last_run)),
{
    if last_run < changed {
        crate::time::timestamps_sort_by_time(last_run, changed);
        if crate::text::lex_lt(c.updated_at, crate::time::rfc3339(last_run)) {
            crate::text::lemma_lex_transitive(
                c.updated_at,
                crate::time::rfc3339(last_run),
                c.updated_at,
            );
            crate::text::lemma_lex_irreflexive(c.updated_at);
        }
    } else {
        crate::text::lemma_lex_irreflexive(c.updated_at);
    }
}

/// The notes of a shorter list come first.
proof fn lemma_fresh_prefix(notes: Seq<ReflectedNoteView>, known: Seq<MemoryNoteView>, n: int)
    requires
        0 <= n <= notes.len(),
    ensures
        fresh_notes(notes.take(n), known).len() <= fresh_notes(notes, known).len(),
        fresh_notes(notes, known).take(fresh_notes(notes.take(n), known).len() as int)
            == fresh_notes(notes.take(n), known),
    decreases notes.len(),
{
    let f = fresh_notes(notes, known);
    if n == notes.len() {
        assert(notes.take(n) =~= notes);
        assert(f.take(f.len() as int) =~= f);
    } else {
        lemma_fresh_prefix(notes.drop_last(), known, n);
        assert(notes.drop_last().take(n) =~= notes.take(n));
        let k = fresh_notes(notes.take(n), known).len() as int;
        assert(f.take(k) =~= fresh_notes(notes.drop_last(), known).take(k));
    }
}

/// What a retry writes of the first `n` notes.
proof fn lemma_retry(
    notes: Seq<ReflectedNoteView>,
    known: Seq<MemoryNoteView>,
    later: Seq<MemoryNoteView>,
    written: int,
    n: int,
)
    requires
        0 <= n <= notes.len(),
        0 <= written <= fresh_notes(notes, known).len(),
        forall|body: Seq<char>| #[trigger]
            crate::memory::store::has_body(later, body) <==> crate::memory::store::has_body(
                known,
                body,
            ) || among(fresh_notes(notes, known).take(written), body),
    ensures
        ({
            let f = fresh_notes(notes.take(n), known);
            fresh_notes(notes.take(n), later) == if f.len() <= written {
                Seq::<ReflectedNoteView>::empty()
            } else {
                f.skip(written)
            }
        }),
    decreases n,
{
    let all = fresh_notes(notes, known);
    let f = fresh_notes(notes.take(n), known);
    if n == 0 {
        assert(notes.take(0).len() == 0);
    } else {
        lemma_retry(notes, known, later, written, n - 1);
        lemma_fresh_prefix(notes, known, n);
        lemma_fresh_prefix(notes, known, n - 1);
        assert(notes.take(n).drop_last() =~= notes.take(n - 1));
        let note = notes.take(n).last();
        let f0 = fresh_notes(notes.take(n - 1), known);
        let g0 = fresh_notes(notes.take(n - 1), later);
        let done = all.take(written);
        if crate::memory::store::has_body(known, note.body) {
            assert(crate::memory::store::has_body(later, note.body));
        } else if among(f0, note.body) {
            let i = choose|i: int|
                0 <= i < f0.len() && crate::text::trim((#[trigger] f0[i]).body)
                    == crate::text::trim(note.body);
            assert(all.take(f0.len() as int)[i] == f0[i]);
            if i < written {
                assert(done[i] == f0[i]);
                assert(among(done, note.body));
                assert(crate::memory::store::has_body(later, note.body));
            } else {
                assert(g0[i - written] == f0[i]);
                assert(among(g0, note.body));
            }
        } else {
            assert(f.last().body == note.body);
            assert(all.take(f.len() as int)[f0.len() as int] == f[f0.len() as int]);
            if f0.len() < written {
                assert(done[f0.len() as int] == f[f0.len() as int]);
                assert(among(done, note.body));
                assert(crate::memory::store::has_body(later, note.body));
            } else {
                if among(done, note.body) {
                    let i = choose|i: int|
                        0 <= i < done.len() && crate::text::trim((#[trigger] done[i]).body)
                            == crate::text::trim(note.body);
                    assert(all.take(f0.len() as int)[i] == f0[i]);
                    assert(among(f0, note.body));
                }
                if among(g0, note.body) {
                    let i = choose|i: int|
                        0 <= i < g0.len() && crate::text::trim((#[trigger] g0[i]).body)
                            == crate::text::trim(note.body);
                    assert(f0[i + written] == g0[i]);
                    assert(among(f0, note.body));
                }
                assert(!crate::memory::store::has_body(later, note.body));
                assert(f.skip(written) =~= if f0.len() <= written {
                    Seq::<ReflectedNoteView>::empty()
                } else {
                    f0.skip(written)
                }.push(f.last()));
            }
        }
    }
}

/// A retry after a run that wrote only its first notes writes exactly the ones
/// that are missing: none is written twice.
pub proof fn retry_writes_what_is_missing(
    notes: Seq<ReflectedNoteView>,
    known: Seq<MemoryNoteView>,
    later: Seq<MemoryNoteView>,
    written: int,
)
    requires
        0 <= written <= fresh_notes(notes, known).len(),
        forall|body: Seq<char>| #[trigger]
            crate::memory::store::has_body(later, body) <==> crate::memory::store::has_body(
                known,
                body,
            ) || among(fresh_notes(notes, known).take(written), body),
    ensures
        fresh_notes(notes, later) == fresh_notes(notes, known).skip(written),
{
    lemma_retry(notes, known, later, written, notes.len() as int);
    assert(notes.take(notes.len() as int) =~= notes);
    assert(fresh_notes(notes, known).skip(fresh_notes(notes, known).len() as int)
        =~= Seq::<ReflectedNoteView>::empty());
}

/// The persona is only nudged: it changes only where edits are allowed, never
/// beyond its bound, and a persona that is there grows by a bounded amount.
pub proof fn persona_is_only_nudged(
    r: RevisionView,
    current: Seq<char>,
    edits: bool,
    has_file: bool,
)
    requires
        persona_record(r, current, edits, has_file).file is Some,
    ensures
        edits && has_file,
        0 < crate::text::trim(r.persona).len() <= PERSONA_MAX_CHARS,
        current.len() > 0 ==> crate::text::trim(r.persona).len() <= current.len()
            + PERSONA_MAX_GROWTH_CHARS,
        persona_record(r, current, edits, has_file).file == Some(
            crate::text::trim(r.persona) + "\n"@,
        ),
{
}

/// A thought about the persona is kept as a note, whether it changes anything
/// or not.
pub proof fn persona_thought_is_recorded(
    d: DigestView,
    known: Seq<MemoryNoteView>,
    current: Seq<char>,
    edits: bool,
    has_file: bool,
)
    requires
        d.revision is Some,
    ensures
        finished(d, known, current, edits, has_file).persona is Some,
        finished(d, known, current, edits, has_file).outcome.persona_changed
            == (finished(d, known, current, edits, has_file).persona->Some_0.file is Some),
{
}

/// A persona block needs no reasoning: one that begins with the rule is the
/// revision that follows it.
pub proof fn persona_may_stand_alone(block: Seq<char>)
    requires
        crate::text::begins(block, "---"@),
        crate::text::trim(block.skip(3)).len() > 0,
    ensures
        crate::agent::reflect::parse::revision_of(block) == Some(
            RevisionView {
                why: Seq::empty(),
                how: Seq::empty(),
                persona: crate::text::trim(block.skip(3)),
            },
        ),
{
    let head = Seq::<char>::empty();
    assert(crate::text::line_seq(head) =~= seq![]);
}

/// A run that is switched off is never due.
pub proof fn disabled_is_never_due(r: Reflector, now: u64, last_run: u64, clock: LocalClock)
    requires
        !r.enabled,
    ensures
        due(r, now, last_run, clock) is None,
{
}

/// A cycle runs once: right after a run, nothing is due.
pub proof fn cycle_runs_once(r: Reflector, now: u64, clock: LocalClock)
    requires
        clock.last_run == clock.now,
        crate::text::lex_lt(
            crate::memory::store::local_day(signed(now) - 86400, clock.day_before),
            crate::memory::store::local_day(signed(now), clock.now),
        ),
    ensures
        due(r, now, now, clock) is None,
{
    let today = crate::memory::store::local_day(signed(now), clock.now);
    let yesterday = crate::memory::store::local_day(signed(now) - 86400, clock.day_before);
    crate::text::lemma_lex_irreflexive(today);
    if crate::text::lex_lt(today, yesterday) {
        crate::text::lemma_lex_transitive(today, yesterday, today);
    }
}

} // verus!

//! Durable memory: notes in plain Markdown, and their budgeted injection into
//! the context.

use vstd::prelude::*;

use crate::text::{char_count, chars_of, contains, list_has, string_of};

pub mod inject;
pub mod laws;
pub mod search_laws;
pub mod store;

pub use inject::{memory_block, memory_block_with_budget, MEMORY_BLOCK_BUDGET_TOKENS};
pub use store::{local_date, MemoryNote, MemoryStore};

use store::MemoryNoteView;

verus! {

/// What `char::is_alphanumeric` says of a character.
pub uninterp spec fn alphanumeric(c: char) -> bool;

/// What `str::to_lowercase` makes of a text.
pub uninterp spec fn lowercase(s: Seq<char>) -> Seq<char>;

/// Calls `char::is_alphanumeric`.
#[verifier::external_body]
fn is_alphanumeric(c: char) -> (r: bool)
    ensures
        r == alphanumeric(c),
{
    c.is_alphanumeric()
}

/// Calls `str::to_lowercase`.
#[verifier::external_body]
fn to_lowercase(s: &str) -> (r: String)
    ensures
        r@ == lowercase(s@),
{
    s.to_lowercase()
}

/// The pieces of `s` between characters that are not alphanumeric, lower-cased.
pub open spec fn lowered_words(s: Seq<char>) -> Seq<Seq<char>> {
    words(s).map_values(|w: Seq<char>| lowercase(w))
}

/// The pieces of `s` between characters that are not alphanumeric.
pub open spec fn words(s: Seq<char>) -> Seq<Seq<char>>
    decreases s.len(),
{
    if s.len() == 0 {
        seq![seq![]]
    } else if alphanumeric(s.last()) {
        let before = words(s.drop_last());
        before.update(before.len() - 1, before.last().push(s.last()))
    } else {
        words(s.drop_last()).push(seq![])
    }
}

/// The words of at least `min_chars` characters, each once, in the order in
/// which they first occur.
pub open spec fn distinct(words: Seq<Seq<char>>, min_chars: int) -> Seq<Seq<char>>
    decreases words.len(),
{
    if words.len() == 0 {
        seq![]
    } else {
        let before = distinct(words.drop_last(), min_chars);
        if words.last().len() >= min_chars && !before.contains(words.last()) {
            before.push(words.last())
        } else {
            before
        }
    }
}

/// The terms of a query.
pub open spec fn terms_of(query: Seq<char>, min_chars: int) -> Seq<Seq<char>> {
    distinct(lowered_words(query), min_chars)
}

/// `words` always gives at least one piece.
proof fn lemma_words_len(s: Seq<char>)
    ensures
        words(s).len() > 0,
    decreases s.len(),
{
    if s.len() > 0 {
        lemma_words_len(s.drop_last());
    }
}

/// The pieces between characters that are not alphanumeric, lower-cased.
fn read_words(query: &str) -> (r: Vec<String>)
    ensures
        crate::text::texts(r@) == lowered_words(query@),
{
    let v = chars_of(query);
    let mut pieces: Vec<String> = Vec::new();
    let mut start: usize = 0;
    let mut i: usize = 0;
    assert(query@.take(0) =~= seq![]);
    assert(crate::text::texts(pieces@).push(v@.subrange(0, 0)) =~= words(query@.take(0)));
    while i < v.len()
        invariant
            v@ == query@,
            start <= i <= v.len(),
            crate::text::texts(pieces@).push(v@.subrange(start as int, i as int)) == words(
                query@.take(i as int),
            ),
        decreases v.len() - i,
    {
        assert(query@.take(i + 1).drop_last() =~= query@.take(i as int));
        let ghost done = crate::text::texts(pieces@);
        if is_alphanumeric(v[i]) {
            proof {
                let w = words(query@.take(i as int));
                let piece = v@.subrange(start as int, i as int);
                assert(w.last() == piece);
                assert(piece.push(v@[i as int]) =~= v@.subrange(start as int, i + 1));
                assert(w.update(w.len() - 1, piece.push(v@[i as int])) =~= done.push(
                    v@.subrange(start as int, i + 1),
                ));
            }
        } else {
            let piece = string_of(&v, start, i);
            pieces.push(piece);
            assert(crate::text::texts(pieces@) =~= done.push(piece@));
            start = i + 1;
            assert(v@.subrange(start as int, i + 1) =~= seq![]);
        }
        i = i + 1;
    }
    let last = string_of(&v, start, v.len());
    let ghost done = crate::text::texts(pieces@);
    pieces.push(last);
    assert(crate::text::texts(pieces@) =~= done.push(last@));
    assert(query@.take(i as int) =~= query@);
    let mut out: Vec<String> = Vec::new();
    let mut k: usize = 0;
    while k < pieces.len()
        invariant
            k <= pieces.len(),
            out@.len() == k,
            forall|n: int| 0 <= n < k ==> (#[trigger] out@[n])@ == lowercase(pieces@[n]@),
        decreases pieces.len() - k,
    {
        out.push(to_lowercase(pieces[k].as_str()));
        k = k + 1;
    }
    assert(crate::text::texts(out@) =~= lowered_words(query@));
    out
}

/// The words of at least `min_chars` characters, each once, in the order in
/// which they first occur.
pub fn distinct_terms(words: &Vec<String>, min_chars: usize) -> (r: Vec<String>)
    ensures
        crate::text::texts(r@) == distinct(crate::text::texts(words@), min_chars as int),
{
    let ghost all = crate::text::texts(words@);
    let mut out: Vec<String> = Vec::new();
    let mut i: usize = 0;
    assert(all.take(0) =~= seq![]);
    assert(crate::text::texts(out@) =~= seq![]);
    while i < words.len()
        invariant
            i <= words.len(),
            all == crate::text::texts(words@),
            crate::text::texts(out@) == distinct(all.take(i as int), min_chars as int),
        decreases words.len() - i,
    {
        assert(all.take(i + 1).drop_last() =~= all.take(i as int));
        assert(all.take(i + 1).last() == words@[i as int]@);
        let ghost before = crate::text::texts(out@);
        if char_count(words[i].as_str()) >= min_chars && !list_has(&out, words[i].as_str()) {
            let word = words[i].clone();
            out.push(word);
            assert(crate::text::texts(out@) =~= before.push(word@));
        }
        i = i + 1;
    }
    assert(all.take(i as int) =~= all);
    out
}

/// The terms of a query: its alphanumeric words, lower-cased, each once.
pub fn query_terms(query: &str, min_chars: usize) -> (r: Vec<String>)
    ensures
        crate::text::texts(r@) == terms_of(query@, min_chars as int),
{
    distinct_terms(&read_words(query), min_chars)
}

/// Whether one of the texts holds `term`.
pub open spec fn any_has(texts: Seq<Seq<char>>, term: Seq<char>) -> bool {
    exists|i: int| 0 <= i < texts.len() && #[trigger] crate::text::has(texts[i], term)
}

/// What one term adds to a score: a tag counts more than the body.
pub open spec fn term_score(body: Seq<char>, tags: Seq<Seq<char>>, term: Seq<char>) -> nat {
    if any_has(tags, term) {
        3
    } else if crate::text::has(body, term) {
        1
    } else {
        0
    }
}

/// The score of lower-cased texts.
pub open spec fn lowered_score(
    body: Seq<char>,
    tags: Seq<Seq<char>>,
    terms: Seq<Seq<char>>,
) -> nat
    decreases terms.len(),
{
    if terms.len() == 0 {
        0
    } else {
        lowered_score(body, tags, terms.drop_last()) + term_score(body, tags, terms.last())
    }
}

/// The score of a note.
pub open spec fn note_score(note: MemoryNoteView, terms: Seq<Seq<char>>) -> nat {
    lowered_score(
        lowercase(note.content),
        note.tags.map_values(|t: Seq<char>| lowercase(t)),
        terms,
    )
}

/// The score of lower-cased texts: how many terms they hold, a tag three times.
pub fn score_lowered(body: &str, tags: &Vec<String>, terms: &Vec<String>) -> (r: u128)
    ensures
        r == lowered_score(body@, crate::text::texts(tags@), crate::text::texts(terms@)),
{
    let ghost ts = crate::text::texts(tags@);
    let ghost all = crate::text::texts(terms@);
    let mut score: u128 = 0;
    let mut i: usize = 0;
    assert(all.take(0) =~= seq![]);
    while i < terms.len()
        invariant
            i <= terms.len(),
            ts == crate::text::texts(tags@),
            all == crate::text::texts(terms@),
            score == lowered_score(body@, ts, all.take(i as int)),
            score <= 3 * i,
        decreases terms.len() - i,
    {
        assert(all.take(i + 1).drop_last() =~= all.take(i as int));
        let ghost term = all.take(i + 1).last();
        assert(term == terms@[i as int]@);
        let mut hit: bool = false;
        let mut k: usize = 0;
        while k < tags.len() && !hit
            invariant
                i < terms.len(),
                k <= tags.len(),
                ts == crate::text::texts(tags@),
                term == terms@[i as int]@,
                hit ==> any_has(ts, term),
                !hit ==> forall|n: int| 0 <= n < k ==> !#[trigger] crate::text::has(ts[n], term),
            decreases tags.len() - k + (if hit { 0int } else { 1int }),
        {
            if contains(tags[k].as_str(), terms[i].as_str()) {
                assert(crate::text::has(ts[k as int], term));
                hit = true;
            } else {
                k = k + 1;
            }
        }
        let add: u128 = if hit {
            3
        } else if contains(body, terms[i].as_str()) {
            1
        } else {
            0
        };
        score = score + add;
        i = i + 1;
    }
    assert(all.take(i as int) =~= all);
    score
}

/// The score of a note: how many terms its text holds, a tag three times.
pub fn score_note(note: &MemoryNote, terms: &Vec<String>) -> (r: u128)
    ensures
        r == note_score(note@, crate::text::texts(terms@)),
{
    let body = to_lowercase(note.content.as_str());
    let mut tags: Vec<String> = Vec::new();
    let mut i: usize = 0;
    while i < note.tags.len()
        invariant
            i <= note.tags.len(),
            tags@.len() == i,
            forall|k: int| 0 <= k < i ==> (#[trigger] tags@[k])@ == lowercase(note.tags@[k]@),
        decreases note.tags.len() - i,
    {
        tags.push(to_lowercase(note.tags[i].as_str()));
        i = i + 1;
    }
    assert(crate::text::texts(tags@) =~= note@.tags.map_values(|t: Seq<char>| lowercase(t)));
    score_lowered(body.as_str(), &tags, terms)
}

/// A term never occurs twice.
pub proof fn terms_are_distinct(words: Seq<Seq<char>>, min_chars: int)
    ensures
        distinct(words, min_chars).no_duplicates(),
        forall|i: int|
            0 <= i < distinct(words, min_chars).len() ==> (#[trigger] distinct(
                words,
                min_chars,
            )[i]).len() >= min_chars,
    decreases words.len(),
{
    if words.len() > 0 {
        terms_are_distinct(words.drop_last(), min_chars);
    }
}

} // verus!

//! What holds of everything that the reflector writes: every note of it is read,
//! with its tags and its body, and so is what it thinks about the persona.

use vstd::prelude::*;

use crate::agent::reflect::parse::{
    block_head, block_persona, dashes, flushed, line_tag, line_tags, marked, note_of, revision_of,
    scanned, tags_on, without, ReflectedNoteView, ScanView, PERSONA_OPEN,
};
use crate::text::{begins, find_from, join, line_seq, occurs_at, trim};

verus! {

/// Whether no line separates notes or opens a persona block.
pub open spec fn unmarked(lines: Seq<Seq<char>>) -> bool {
    forall|i: int|
        0 <= i < lines.len() ==> trim(#[trigger] lines[i]) != "==="@ && trim(lines[i])
            != "===PERSONA==="@
}

/// What lines say as a note, as a list.
pub open spec fn as_note(lines: Seq<Seq<char>>) -> Seq<ReflectedNoteView> {
    match note_of(join(lines, "\n"@)) {
        Some(n) => seq![n],
        None => seq![],
    }
}

/// Unmarked lines belong to the note that is being read.
proof fn lemma_gathered(before: Seq<Seq<char>>, lines: Seq<Seq<char>>)
    requires
        scanned(before).block is None,
        unmarked(lines),
    ensures
        scanned(before + lines) == (ScanView {
            segment: scanned(before).segment + lines,
            ..scanned(before)
        }),
    decreases lines.len(),
{
    if lines.len() == 0 {
        assert(before + lines =~= before);
        assert(scanned(before).segment + lines =~= scanned(before).segment);
    } else {
        let less = lines.drop_last();
        assert forall|i: int| 0 <= i < less.len() implies trim(#[trigger] less[i]) != "==="@
            && trim(less[i]) != "===PERSONA==="@ by {
            assert(less[i] == lines[i]);
        }
        lemma_gathered(before, less);
        assert((before + lines).drop_last() =~= before + less);
        assert(lines[lines.len() - 1] == lines.last());
        assert((scanned(before).segment + less).push(lines.last()) =~= scanned(before).segment
            + lines);
    }
}

/// Every note is read: behind a separator a new one begins, and it joins the notes
/// before it, whatever those are. A text without separators is one note.
pub proof fn every_note_is_read(before: Seq<Seq<char>>, mark: Seq<char>, lines: Seq<Seq<char>>)
    requires
        scanned(before).block is None,
        trim(mark) == "==="@,
        unmarked(lines),
    ensures
        flushed(scanned(before.push(mark) + lines)).notes == flushed(scanned(before)).notes
            + as_note(lines),
        flushed(scanned(before.push(mark) + lines)).persona == scanned(before).persona,
        flushed(scanned(lines)).notes == as_note(lines),
{
    let parted = before.push(mark);
    assert(parted.drop_last() =~= before);
    assert("==="@ != PERSONA_OPEN@) by {
        reveal_strlit("===");
        reveal_strlit("===PERSONA===");
        assert("==="@.len() == 3);
        assert("===PERSONA==="@.len() == 13);
    }
    assert(scanned(parted) == flushed(scanned(before)));
    lemma_gathered(parted, lines);
    assert(scanned(parted).segment + lines =~= lines);
    assert(flushed(scanned(parted + lines)).notes =~= flushed(scanned(before)).notes + as_note(
        lines,
    ));
    let none: Seq<Seq<char>> = seq![];
    lemma_gathered(none, lines);
    assert(none + lines =~= lines);
    assert(scanned(none).segment + lines =~= lines);
    assert(flushed(scanned(lines)).notes =~= as_note(lines));
}

/// The lines of a persona block are gathered until it is closed.
proof fn lemma_block(before: Seq<Seq<char>>, block: Seq<Seq<char>>)
    requires
        scanned(before).block matches Some(b) && b.len() == 0,
        forall|i: int| 0 <= i < block.len() ==> trim(#[trigger] block[i]) != "===END==="@,
    ensures
        scanned(before + block) == (ScanView { block: Some(block), ..scanned(before) }),
    decreases block.len(),
{
    if block.len() == 0 {
        assert(before + block =~= before);
        assert(scanned(before).block->0 =~= block);
    } else {
        let less = block.drop_last();
        assert forall|i: int| 0 <= i < less.len() implies trim(#[trigger] less[i])
            != "===END==="@ by {
            assert(less[i] == block[i]);
        }
        lemma_block(before, less);
        assert((before + block).drop_last() =~= before + less);
        assert(block[block.len() - 1] == block.last());
        assert(less.push(block.last()) =~= block);
    }
}

/// A persona block is read as what stands in it, and the notes before it are
/// kept.
pub proof fn persona_block_is_read(
    before: Seq<Seq<char>>,
    open: Seq<char>,
    block: Seq<Seq<char>>,
    close: Seq<char>,
)
    requires
        scanned(before).block is None,
        trim(open) == "===PERSONA==="@,
        trim(close) == "===END==="@,
        forall|i: int| 0 <= i < block.len() ==> trim(#[trigger] block[i]) != "===END==="@,
    ensures
        ({
            let end = scanned((before.push(open) + block).push(close));
            &&& end.persona == revision_of(join(block, "\n"@))
            &&& end.notes == flushed(scanned(before)).notes
            &&& end.block is None
            &&& end.segment.len() == 0
        }),
{
    let opened = before.push(open);
    assert(opened.drop_last() =~= before);
    lemma_block(opened, block);
    let all = (opened + block).push(close);
    assert(all.drop_last() =~= opened + block);
}

/// Where the first rule of lines stands.
proof fn lemma_dashes(lines: Seq<Seq<char>>, from: int, d: int)
    requires
        0 <= from <= d <= lines.len(),
        d < lines.len() ==> trim(lines[d]) == "---"@,
        forall|i: int| from <= i < d ==> trim(#[trigger] lines[i]) != "---"@,
    ensures
        dashes(lines, from) == d,
    decreases d - from,
{
    if from < d {
        assert(trim(lines[from]) != "---"@);
        lemma_dashes(lines, from + 1, d);
    }
}

/// A note has the tags that stand before its rule and the body that stands behind
/// it, all of it.
pub proof fn note_has_its_tags_and_body(
    segment: Seq<char>,
    head: Seq<Seq<char>>,
    rule: Seq<char>,
    body: Seq<Seq<char>>,
)
    requires
        line_seq(segment) == head.push(rule) + body,
        trim(rule) == "---"@,
        forall|i: int| 0 <= i < head.len() ==> trim(#[trigger] head[i]) != "---"@,
        trim(join(body, "\n"@)).len() > 0,
    ensures
        note_of(segment) == Some(
            ReflectedNoteView {
                tags: tags_on(join(head, " "@)),
                body: trim(join(body, "\n"@)),
            },
        ),
{
    let lines = line_seq(segment);
    let d = head.len() as int;
    assert(lines[d] == rule);
    assert forall|i: int| 0 <= i < d implies trim(#[trigger] lines[i]) != "---"@ by {
        assert(lines[i] == head[i]);
    }
    lemma_dashes(lines, 0, d);
    assert(lines.take(d) =~= head);
    assert(lines.skip(d + 1) =~= body);
}

/// A text without a rule is a note without tags, and all of it is the body.
pub proof fn text_without_a_rule_is_a_note(segment: Seq<char>)
    requires
        forall|i: int|
            0 <= i < line_seq(segment).len() ==> trim(#[trigger] line_seq(segment)[i]) != "---"@,
        trim(segment).len() > 0,
    ensures
        note_of(segment) == Some(ReflectedNoteView { tags: seq![], body: trim(segment) }),
{
    lemma_dashes(line_seq(segment), 0, line_seq(segment).len() as int);
}

/// Every tag of a line is read, in its order, and what is empty is no tag.
pub proof fn every_tag_is_read(a: Seq<Seq<char>>, b: Seq<Seq<char>>)
    ensures
        line_tags(a + b) == line_tags(a) + line_tags(b),
        a.len() == 1 ==> line_tags(a) == if line_tag(a[0]).len() > 0 {
            seq![line_tag(a[0])]
        } else {
            seq![]
        },
    decreases b.len(),
{
    if b.len() == 0 {
        assert(a + b =~= a);
        assert(line_tags(a) + line_tags(b) =~= line_tags(a));
    } else {
        assert((a + b).drop_last() =~= a + b.drop_last());
        every_tag_is_read(a, b.drop_last());
        assert(line_tags(a + b) =~= line_tags(a) + line_tags(b));
    }
    if a.len() == 1 {
        reveal_with_fuel(line_tags, 2);
        assert(a.drop_last() =~= seq![]);
    }
}

/// What stands behind a mark is read: the last line that has it counts.
pub proof fn marked_line_is_read(
    before: Seq<Seq<char>>,
    line: Seq<char>,
    after: Seq<Seq<char>>,
    a: Seq<char>,
    b: Seq<char>,
    text: Seq<char>,
)
    requires
        trim(line) == a + text,
        forall|i: int|
            0 <= i < after.len() ==> without(trim(#[trigger] after[i]), a, b) is None,
    ensures
        marked(before.push(line) + after, a, b) == trim(text),
    decreases after.len(),
{
    let all = before.push(line) + after;
    if after.len() == 0 {
        assert(all =~= before.push(line));
        assert((a + text).subrange(0, a.len() as int) =~= a);
        assert((a + text).skip(a.len() as int) =~= text);
    } else {
        let less = after.drop_last();
        assert(all.drop_last() =~= before.push(line) + less);
        assert(without(trim(after[after.len() - 1]), a, b) is None);
        assert forall|i: int| 0 <= i < less.len() implies without(
            trim(#[trigger] less[i]),
            a,
            b,
        ) is None by {
            assert(less[i] == after[i]);
        }
        marked_line_is_read(before, line, less, a, b, text);
    }
}

/// A persona block is parted by its first rule: what is thought stands before it,
/// the revision behind it, all of it.
pub proof fn block_is_parted_by_its_rule(head: Seq<char>, rest: Seq<char>)
    requires
        !begins(head + "\n---"@ + rest, "---"@),
        forall|k: int| 0 <= k < head.len() ==> !#[trigger] occurs_at(head + "\n---"@ + rest, "\n---"@, k),
    ensures
        block_head(head + "\n---"@ + rest) == head,
        block_persona(head + "\n---"@ + rest) == trim(rest),
{
    reveal_strlit("\n---");
    let rule = "\n---"@;
    let block = head + rule + rest;
    let n = head.len() as int;
    crate::text::lemma_find_from(block, rule, 0);
    assert(block.subrange(n, n + 4) =~= rule);
    assert(occurs_at(block, rule, n));
    assert(find_from(block, rule, 0) == Some(n));
    assert(block.take(n) =~= head);
    assert(block.skip(n + 4) =~= rest);
}

} // verus!

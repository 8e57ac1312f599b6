//! Reading what the reflector wrote: notes, one after the other, in the form
//! `tags`, `---`, body, with `===` between them, and an optional persona block
//! from `===PERSONA===` to `===END===`.

use vstd::prelude::*;

use crate::text::{empty, join_with, lines, same, split_on, split_once, strip_prefix, trimmed, trimmed_set};

verus! {

/// The line that opens a persona block.
pub const PERSONA_OPEN: &'static str = "===PERSONA===";

/// The line that closes a persona block.
pub const PERSONA_CLOSE: &'static str = "===END===";

/// One note of the reflector.
#[derive(Debug, PartialEq, Eq)]
pub struct ReflectedNote {
    pub tags: Vec<String>,
    pub body: String,
}

/// The content of a [`ReflectedNote`].
#[verifier::ext_equal]
pub struct ReflectedNoteView {
    pub tags: Seq<Seq<char>>,
    pub body: Seq<char>,
}

impl View for ReflectedNote {
    type V = ReflectedNoteView;

    open spec fn view(&self) -> ReflectedNoteView {
        ReflectedNoteView { tags: crate::text::texts(self.tags@), body: self.body@ }
    }
}

/// What the reflector thought about the persona, with a revision where it
/// proposes one.
#[derive(Debug, PartialEq, Eq)]
pub struct PersonaRevision {
    pub why: String,
    pub how: String,
    /// The whole revised persona; empty where none is proposed.
    pub persona: String,
}

/// The content of a [`PersonaRevision`].
#[verifier::ext_equal]
pub struct RevisionView {
    pub why: Seq<char>,
    pub how: Seq<char>,
    pub persona: Seq<char>,
}

impl View for PersonaRevision {
    type V = RevisionView;

    open spec fn view(&self) -> RevisionView {
        RevisionView { why: self.why@, how: self.how@, persona: self.persona@ }
    }
}

/// What the reflector wrote.
#[derive(Debug, PartialEq, Eq)]
pub struct Reflection {
    pub notes: Vec<ReflectedNote>,
    pub persona: Option<PersonaRevision>,
}

/// The content of a [`Reflection`].
#[verifier::ext_equal]
pub struct ReflectionView {
    pub notes: Seq<ReflectedNoteView>,
    pub persona: Option<RevisionView>,
}

impl View for Reflection {
    type V = ReflectionView;

    open spec fn view(&self) -> ReflectionView {
        ReflectionView {
            notes: crate::fields::views_of(self.notes@),
            persona: crate::fields::opt_view(self.persona),
        }
    }
}

/// One tag without white space, brackets and quotes around it.
pub open spec fn line_tag(piece: Seq<char>) -> Seq<char> {
    crate::text::trim_set(crate::text::trim(piece), "[]\"'"@)
}

/// The tags of pieces, without empty ones.
pub open spec fn line_tags(pieces: Seq<Seq<char>>) -> Seq<Seq<char>>
    decreases pieces.len(),
{
    if pieces.len() == 0 {
        seq![]
    } else if line_tag(pieces.last()).len() == 0 {
        line_tags(pieces.drop_last())
    } else {
        line_tags(pieces.drop_last()).push(line_tag(pieces.last()))
    }
}

/// A line without the first of two prefixes that begins it.
pub open spec fn without(line: Seq<char>, a: Seq<char>, b: Seq<char>) -> Option<Seq<char>> {
    if crate::text::begins(line, a) {
        Some(line.skip(a.len() as int))
    } else if crate::text::begins(line, b) {
        Some(line.skip(b.len() as int))
    } else {
        None
    }
}

/// The tags that a line names, with or without `tags:` before them.
pub open spec fn tags_on(line: Seq<char>) -> Seq<Seq<char>> {
    let t = crate::text::trim(line);
    line_tags(
        crate::text::split(
            match without(t, "tags:"@, "Tags:"@) {
                Some(rest) => rest,
                None => t,
            },
            ',',
        ),
    )
}

/// A line without the first of two prefixes that begins it.
fn strip_either(line: &str, a: &str, b: &str) -> (r: Option<String>)
    ensures
        crate::text::opt_text(r) == without(line@, a@, b@),
{
    match strip_prefix(line, a) {
        Some(rest) => Some(rest),
        None => strip_prefix(line, b),
    }
}

/// The tags that a line names.
pub fn parse_tag_line(line: &str) -> (r: Vec<String>)
    ensures
        crate::text::texts(r@) == tags_on(line@),
{
    let t = trimmed(line);
    let bare: String = match strip_either(t.as_str(), "tags:", "Tags:") {
        Some(rest) => rest,
        None => t,
    };
    let pieces = split_on(bare.as_str(), ',');
    let ghost all = crate::text::texts(pieces@);
    let mut out: Vec<String> = Vec::new();
    let mut i: usize = 0;
    assert(all.take(0) =~= seq![]);
    assert(crate::text::texts(out@) =~= seq![]);
    while i < pieces.len()
        invariant
            i <= pieces.len(),
            all == crate::text::texts(pieces@),
            crate::text::texts(out@) == line_tags(all.take(i as int)),
        decreases pieces.len() - i,
    {
        assert(all.take(i + 1).drop_last() =~= all.take(i as int));
        assert(all.take(i + 1).last() == pieces@[i as int]@);
        let tag = trimmed_set(trimmed(pieces[i].as_str()).as_str(), "[]\"'");
        let ghost before = crate::text::texts(out@);
        if !empty(tag.as_str()) {
            out.push(tag);
            assert(crate::text::texts(out@) =~= before.push(tag@));
        }
        i = i + 1;
    }
    assert(all.take(i as int) =~= all);
    out
}

/// The place of the first line `---`; the number of lines where there is none.
pub open spec fn dashes(lines: Seq<Seq<char>>, from: int) -> int
    decreases lines.len() - from,
{
    if from < 0 || from >= lines.len() {
        lines.len() as int
    } else if crate::text::trim(lines[from]) == "---"@ {
        from
    } else {
        dashes(lines, from + 1)
    }
}

/// The note of a segment: tags and body around the first line `---`, and the
/// whole text as the body where that gives none.
pub open spec fn note_of(segment: Seq<char>) -> Option<ReflectedNoteView> {
    let lines = crate::text::line_seq(segment);
    let d = dashes(lines, 0);
    let body = if d < lines.len() {
        crate::text::trim(crate::text::join(lines.skip(d + 1), "\n"@))
    } else {
        Seq::empty()
    };
    if body.len() > 0 {
        Some(
            ReflectedNoteView {
                tags: tags_on(crate::text::join(lines.take(d), " "@)),
                body: body,
            },
        )
    } else if crate::text::trim(segment).len() == 0 {
        None
    } else {
        Some(ReflectedNoteView { tags: seq![], body: crate::text::trim(segment) })
    }
}

/// The strings `v[from..to]`.
fn some_lines(v: &Vec<String>, from: usize, to: usize) -> (r: Vec<String>)
    requires
        from <= to <= v@.len(),
    ensures
        crate::text::texts(r@) == crate::text::texts(v@).subrange(from as int, to as int),
{
    let mut out: Vec<String> = Vec::new();
    let mut i: usize = from;
    while i < to
        invariant
            from <= i <= to <= v@.len(),
            out@.len() == i - from,
            forall|k: int| 0 <= k < out@.len() ==> (#[trigger] out@[k])@ == v@[k + from]@,
        decreases to - i,
    {
        out.push(v[i].clone());
        i = i + 1;
    }
    assert(crate::text::texts(out@) =~= crate::text::texts(v@).subrange(from as int, to as int));
    out
}

/// The note of a segment.
pub fn parse_segment(segment: &str) -> (r: Option<ReflectedNote>)
    ensures
        crate::fields::opt_view(r) == note_of(segment@),
{
    let all = lines(segment);
    let ghost views = crate::text::texts(all@);
    let mut d: usize = 0;
    while d < all.len() && !same(trimmed(all[d].as_str()).as_str(), "---")
        invariant
            d <= all.len(),
            views == crate::text::texts(all@),
            dashes(views, 0) == dashes(views, d as int),
        decreases all.len() - d,
    {
        d = d + 1;
    }
    assert(d == dashes(views, 0)) by {
        if d < all@.len() {
            assert(views[d as int] == all@[d as int]@);
        }
    }
    if d < all.len() {
        let after = some_lines(&all, d + 1, all.len());
        assert(crate::text::texts(after@) =~= views.skip(d + 1));
        let body = trimmed(join_with(&after, "\n").as_str());
        if !empty(body.as_str()) {
            let before = some_lines(&all, 0, d);
            assert(crate::text::texts(before@) =~= views.take(d as int));
            let line = join_with(&before, " ");
            return Some(ReflectedNote { tags: parse_tag_line(line.as_str()), body });
        }
    }
    let fallback = trimmed(segment);
    if empty(fallback.as_str()) {
        return None;
    }
    let tags: Vec<String> = Vec::new();
    assert(crate::text::texts(tags@) =~= seq![]);
    Some(ReflectedNote { tags, body: fallback })
}

/// The text behind the last line that begins with a mark; empty where none does.
pub open spec fn marked(lines: Seq<Seq<char>>, a: Seq<char>, b: Seq<char>) -> Seq<char>
    decreases lines.len(),
{
    if lines.len() == 0 {
        Seq::empty()
    } else {
        match without(crate::text::trim(lines.last()), a, b) {
            Some(rest) => crate::text::trim(rest),
            None => marked(lines.drop_last(), a, b),
        }
    }
}

/// The part of a persona block before its revision: what stands before the first
/// line that begins with the rule `---`.
pub open spec fn block_head(block: Seq<char>) -> Seq<char> {
    if crate::text::begins(block, "---"@) {
        Seq::empty()
    } else {
        match crate::text::find_from(block, "\n---"@, 0) {
            Some(i) => block.take(i),
            None => block,
        }
    }
}

/// The revision in a persona block: what follows the first rule.
pub open spec fn block_persona(block: Seq<char>) -> Seq<char> {
    if crate::text::begins(block, "---"@) {
        crate::text::trim(block.skip(3))
    } else {
        match crate::text::find_from(block, "\n---"@, 0) {
            Some(i) => crate::text::trim(block.skip(i + 4)),
            None => Seq::empty(),
        }
    }
}

/// What a persona block says; none where it says nothing at all.
pub open spec fn revision_of(block: Seq<char>) -> Option<RevisionView> {
    let lines = crate::text::line_seq(block_head(block));
    let r = RevisionView {
        why: marked(lines, "WHY:"@, "Why:"@),
        how: marked(lines, "HOW:"@, "How:"@),
        persona: block_persona(block),
    };
    if r.why.len() == 0 && r.how.len() == 0 && r.persona.len() == 0 {
        None
    } else {
        Some(r)
    }
}

/// The text behind the last line that begins with a mark.
fn last_marked(lines: &Vec<String>, a: &str, b: &str) -> (r: String)
    ensures
        r@ == marked(crate::text::texts(lines@), a@, b@),
{
    let ghost all = crate::text::texts(lines@);
    let mut i: usize = lines.len();
    assert(all.take(i as int) =~= all);
    while i > 0
        invariant
            i <= lines.len(),
            all == crate::text::texts(lines@),
            marked(all, a@, b@) == marked(all.take(i as int), a@, b@),
        decreases i,
    {
        assert(all.take(i as int).last() == lines@[i - 1]@);
        assert(all.take(i as int).drop_last() =~= all.take(i - 1));
        if let Some(rest) = strip_either(trimmed(lines[i - 1].as_str()).as_str(), a, b) {
            return trimmed(rest.as_str());
        }
        i = i - 1;
    }
    let r = String::new();
    assert(r@ =~= Seq::<char>::empty());
    r
}

/// What a persona block says: `WHY:` and `HOW:` lines, and behind a line that
/// begins with `---` the revised persona.
pub fn parse_persona_block(block: &str) -> (r: Option<PersonaRevision>)
    ensures
        crate::fields::opt_view(r) == revision_of(block@),
{
    proof {
        reveal_strlit("\n---");
        reveal_strlit("---");
    }
    let none = String::new();
    assert(none@ =~= Seq::<char>::empty());
    let (meta, persona): (String, String) = match strip_prefix(block, "---") {
        Some(rest) => (none, trimmed(rest.as_str())),
        None => match split_once(block, "\n---") {
            Some(parts) => (parts.0, trimmed(parts.1.as_str())),
            None => (block.to_owned(), none),
        },
    };
    let all = lines(meta.as_str());
    let why = last_marked(&all, "WHY:", "Why:");
    let how = last_marked(&all, "HOW:", "How:");
    if empty(why.as_str()) && empty(how.as_str()) && empty(persona.as_str()) {
        return None;
    }
    Some(PersonaRevision { why, how, persona })
}

/// How far a text was read.
#[verifier::ext_equal]
pub struct ScanView {
    pub notes: Seq<ReflectedNoteView>,
    pub persona: Option<RevisionView>,
    /// The lines of the note that is being read.
    pub segment: Seq<Seq<char>>,
    /// The lines of the persona block that is being read.
    pub block: Option<Seq<Seq<char>>>,
}

/// The note that is being read is complete.
pub open spec fn flushed(s: ScanView) -> ScanView {
    ScanView {
        notes: match note_of(crate::text::join(s.segment, "\n"@)) {
            Some(n) => s.notes.push(n),
            None => s.notes,
        },
        segment: seq![],
        ..s
    }
}

/// One more line was read.
pub open spec fn scanned_line(s: ScanView, line: Seq<char>) -> ScanView {
    let mark = crate::text::trim(line);
    match s.block {
        Some(block) => if mark == PERSONA_CLOSE@ {
            ScanView {
                persona: revision_of(crate::text::join(block, "\n"@)),
                block: None,
                ..s
            }
        } else {
            ScanView { block: Some(block.push(line)), ..s }
        },
        None => if mark == PERSONA_OPEN@ {
            ScanView { block: Some(seq![]), ..flushed(s) }
        } else if mark == "==="@ {
            flushed(s)
        } else {
            ScanView { segment: s.segment.push(line), ..s }
        },
    }
}

/// How far lines were read.
pub open spec fn scanned(lines: Seq<Seq<char>>) -> ScanView
    decreases lines.len(),
{
    if lines.len() == 0 {
        ScanView { notes: seq![], persona: None, segment: seq![], block: None }
    } else {
        scanned_line(scanned(lines.drop_last()), lines.last())
    }
}

/// What a text of the reflector says. A persona block that is not closed is
/// left out.
pub open spec fn reflection_of(text: Seq<char>) -> ReflectionView {
    let end = flushed(scanned(crate::text::line_seq(text)));
    ReflectionView { notes: end.notes, persona: end.persona }
}

/// How far a text was read.
struct Scan {
    notes: Vec<ReflectedNote>,
    persona: Option<PersonaRevision>,
    segment: Vec<String>,
    block: Option<Vec<String>>,
}

impl View for Scan {
    type V = ScanView;

    closed spec fn view(&self) -> ScanView {
        ScanView {
            notes: crate::fields::views_of(self.notes@),
            persona: crate::fields::opt_view(self.persona),
            segment: crate::text::texts(self.segment@),
            block: match self.block {
                Some(b) => Some(crate::text::texts(b@)),
                None => None,
            },
        }
    }
}

impl Scan {
    fn flush(&mut self)
        ensures
            final(self)@ == flushed(old(self)@),
    {
        let ghost before = crate::fields::views_of(self.notes@);
        let segment = join_with(&self.segment, "\n");
        if let Some(note) = parse_segment(segment.as_str()) {
            self.notes.push(note);
            assert(crate::fields::views_of(self.notes@) =~= before.push(note@));
        }
        self.segment = Vec::new();
        assert(crate::text::texts(self.segment@) =~= seq![]);
    }

    fn line(&mut self, line: &str)
        ensures
            final(self)@ == scanned_line(old(self)@, line@),
    {
        let mark = trimmed(line);
        if let Some(block) = self.block.take() {
            if same(mark.as_str(), PERSONA_CLOSE) {
                self.persona = parse_persona_block(join_with(&block, "\n").as_str());
            } else {
                let mut more = block;
                more.push(line.to_owned());
                assert(crate::text::texts(more@) =~= crate::text::texts(block@).push(line@));
                self.block = Some(more);
            }
            return;
        }
        if same(mark.as_str(), PERSONA_OPEN) {
            self.flush();
            let block: Vec<String> = Vec::new();
            assert(crate::text::texts(block@) =~= seq![]);
            self.block = Some(block);
        } else if same(mark.as_str(), "===") {
            self.flush();
        } else {
            let ghost before = crate::text::texts(self.segment@);
            self.segment.push(line.to_owned());
            assert(crate::text::texts(self.segment@) =~= before.push(line@));
        }
    }
}

/// What a text of the reflector says.
pub fn parse_reflection(text: &str) -> (r: Reflection)
    ensures
        r@ == reflection_of(text@),
{
    let all = lines(text);
    let ghost views = crate::text::texts(all@);
    let mut scan = Scan {
        notes: Vec::new(),
        persona: None,
        segment: Vec::new(),
        block: None,
    };
    assert(views.take(0) =~= seq![]);
    assert(scan@ =~= scanned(views.take(0)));
    let mut i: usize = 0;
    while i < all.len()
        invariant
            i <= all.len(),
            views == crate::text::texts(all@),
            scan@ == scanned(views.take(i as int)),
        decreases all.len() - i,
    {
        assert(views.take(i + 1).drop_last() =~= views.take(i as int));
        assert(views.take(i + 1).last() == all@[i as int]@);
        scan.line(all[i].as_str());
        i = i + 1;
    }
    assert(views.take(i as int) =~= views);
    scan.flush();
    Reflection { notes: scan.notes, persona: scan.persona }
}

} // verus!

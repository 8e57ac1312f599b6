//! The notes: Markdown files in one directory per day, each with a small header
//! of tags and a date. The format is meant to be edited by hand, so the reader
//! takes anything.

use vstd::prelude::*;

use crate::order::Ranked;
use crate::paths::join_path;
use crate::text::{
    alnum, chars_of, copy_opt, copy_strings, decimal_padded, digit, empty, ends_with, hex_of,
    join_with, less, lines, lower, same, split_on, split_once, string_of, strip_prefix, to_lower,
    trimmed, trimmed_char, trimmed_end, trimmed_set, trimmed_start_set,
};
use crate::time::{now_unix, rfc3339_from_unix};

verus! {

/// One note.
#[derive(Debug, PartialEq, Eq)]
pub struct MemoryNote {
    pub path: String,
    /// The name of the day's directory.
    pub day: String,
    /// The name of the file without its extension.
    pub slug: String,
    pub tags: Vec<String>,
    pub created: Option<String>,
    /// The text without the header.
    pub content: String,
    /// When the file was last changed, in Unix seconds.
    pub modified_unix: u64,
}

/// The content of a [`MemoryNote`].
#[verifier::ext_equal]
pub struct MemoryNoteView {
    pub path: Seq<char>,
    pub day: Seq<char>,
    pub slug: Seq<char>,
    pub tags: Seq<Seq<char>>,
    pub created: Option<Seq<char>>,
    pub content: Seq<char>,
    pub modified_unix: u64,
}

impl View for MemoryNote {
    type V = MemoryNoteView;

    open spec fn view(&self) -> MemoryNoteView {
        MemoryNoteView {
            path: self.path@,
            day: self.day@,
            slug: self.slug@,
            tags: crate::text::texts(self.tags@),
            created: crate::text::opt_text(self.created),
            content: self.content@,
            modified_unix: self.modified_unix,
        }
    }
}

impl Clone for MemoryNote {
    fn clone(&self) -> (r: Self)
        ensures
            r@ == self@,
    {
        MemoryNote {
            path: self.path.clone(),
            day: self.day.clone(),
            slug: self.slug.clone(),
            tags: copy_strings(&self.tags),
            created: copy_opt(&self.created),
            content: self.content.clone(),
            modified_unix: self.modified_unix,
        }
    }
}

/// Whether one text comes before another, or both are equal and `next` holds.
pub open spec fn text_then(a: Seq<char>, b: Seq<char>, next: bool) -> bool {
    crate::text::lex_lt(a, b) || (a == b && next)
}

/// The order of notes by day, time of change and name.
pub open spec fn note_older(a: MemoryNoteView, b: MemoryNoteView) -> bool {
    text_then(
        a.day,
        b.day,
        a.modified_unix < b.modified_unix || (a.modified_unix == b.modified_unix
            && crate::text::lex_lt(a.slug, b.slug)),
    )
}

/// [`note_older`] is asymmetric.
proof fn lemma_older_asymmetric(a: MemoryNoteView, b: MemoryNoteView)
    requires
        note_older(a, b),
    ensures
        !note_older(b, a),
{
    crate::text::lemma_lex_irreflexive(a.day);
    crate::text::lemma_lex_irreflexive(a.slug);
    if crate::text::lex_lt(a.day, b.day) && crate::text::lex_lt(b.day, a.day) {
        crate::text::lemma_lex_transitive(a.day, b.day, a.day);
    }
    if crate::text::lex_lt(a.slug, b.slug) && crate::text::lex_lt(b.slug, a.slug) {
        crate::text::lemma_lex_transitive(a.slug, b.slug, a.slug);
    }
}

/// What is not older than something is not older than what that is not older
/// than.
proof fn lemma_not_older_transitive(a: MemoryNoteView, b: MemoryNoteView, c: MemoryNoteView)
    requires
        !note_older(a, b),
        !note_older(b, c),
    ensures
        !note_older(a, c),
{
    crate::text::lemma_lex_total(a.day, b.day);
    crate::text::lemma_lex_total(b.day, c.day);
    crate::text::lemma_lex_total(a.slug, b.slug);
    crate::text::lemma_lex_total(b.slug, c.slug);
    crate::text::lemma_lex_irreflexive(a.day);
    crate::text::lemma_lex_irreflexive(a.slug);
    if note_older(a, c) {
        if crate::text::lex_lt(b.day, a.day) {
            if crate::text::lex_lt(a.day, c.day) {
                crate::text::lemma_lex_transitive(b.day, a.day, c.day);
            }
        } else if crate::text::lex_lt(c.day, b.day) {
            if crate::text::lex_lt(a.day, c.day) {
                crate::text::lemma_lex_transitive(a.day, c.day, a.day);
            }
        } else if a.modified_unix == b.modified_unix && b.modified_unix == c.modified_unix {
            if crate::text::lex_lt(b.slug, a.slug) {
                crate::text::lemma_lex_transitive(b.slug, a.slug, c.slug);
            }
        }
    }
}

impl Ranked for MemoryNote {
    open spec fn before(a: MemoryNoteView, b: MemoryNoteView) -> bool {
        note_older(b, a)
    }

    fn comes_before(&self, other: &Self) -> (r: bool) {
        less(other.day.as_str(), self.day.as_str()) || (same(
            other.day.as_str(),
            self.day.as_str(),
        ) && (other.modified_unix < self.modified_unix || (other.modified_unix
            == self.modified_unix && less(other.slug.as_str(), self.slug.as_str()))))
    }

    proof fn asymmetric(a: MemoryNoteView, b: MemoryNoteView) {
        lemma_older_asymmetric(b, a);
    }

    proof fn transitive(a: MemoryNoteView, b: MemoryNoteView, c: MemoryNoteView) {
        lemma_not_older_transitive(a, b, c);
    }
}

/// A note with its score.
#[derive(Debug)]
pub struct Scored {
    pub score: u128,
    pub note: MemoryNote,
}

/// The content of a [`Scored`].
#[verifier::ext_equal]
pub struct ScoredView {
    pub score: nat,
    pub note: MemoryNoteView,
}

impl View for Scored {
    type V = ScoredView;

    open spec fn view(&self) -> ScoredView {
        ScoredView { score: self.score as nat, note: self.note@ }
    }
}

impl Ranked for Scored {
    open spec fn before(a: ScoredView, b: ScoredView) -> bool {
        a.score > b.score
    }

    fn comes_before(&self, other: &Self) -> (r: bool) {
        self.score > other.score
    }

    proof fn asymmetric(a: ScoredView, b: ScoredView) {
    }

    proof fn transitive(a: ScoredView, b: ScoredView, c: ScoredView) {
    }
}

/// The notes that hold at least one term, with their scores.
pub open spec fn hits(notes: Seq<MemoryNoteView>, terms: Seq<Seq<char>>) -> Seq<ScoredView>
    decreases notes.len(),
{
    if notes.len() == 0 {
        seq![]
    } else {
        let score = crate::memory::note_score(notes.last(), terms);
        if score > 0 {
            hits(notes.drop_last(), terms).push(ScoredView { score: score, note: notes.last() })
        } else {
            hits(notes.drop_last(), terms)
        }
    }
}

/// The notes that hold at least one term, with their scores.
pub fn find_hits(notes: &Vec<MemoryNote>, terms: &Vec<String>) -> (r: Vec<Scored>)
    ensures
        crate::fields::views_of(r@) == hits(
            crate::fields::views_of(notes@),
            crate::text::texts(terms@),
        ),
{
    let ghost all = crate::fields::views_of(notes@);
    let ghost ts = crate::text::texts(terms@);
    let mut out: Vec<Scored> = Vec::new();
    let mut i: usize = 0;
    assert(all.take(0) =~= seq![]);
    assert(crate::fields::views_of(out@) =~= seq![]);
    while i < notes.len()
        invariant
            i <= notes.len(),
            all == crate::fields::views_of(notes@),
            ts == crate::text::texts(terms@),
            crate::fields::views_of(out@) == hits(all.take(i as int), ts),
        decreases notes.len() - i,
    {
        assert(all.take(i + 1).drop_last() =~= all.take(i as int));
        assert(all.take(i + 1).last() == notes@[i as int]@);
        let ghost before = crate::fields::views_of(out@);
        let score = crate::memory::score_note(&notes[i], terms);
        if score > 0 {
            let item = Scored { score, note: notes[i].clone() };
            out.push(item);
            assert(crate::fields::views_of(out@) =~= before.push(item@));
        }
        i = i + 1;
    }
    assert(all.take(i as int) =~= all);
    out
}

/// The notes of a list of scored notes.
pub open spec fn notes_in(s: Seq<ScoredView>) -> Seq<MemoryNoteView> {
    s.map_values(|x: ScoredView| x.note)
}

/// At most `n` elements from the start.
pub open spec fn at_most<T>(s: Seq<T>, n: int) -> Seq<T> {
    if s.len() <= n {
        s
    } else {
        s.take(n)
    }
}

/// The notes of a list of scored notes, at most `limit`.
pub fn take_notes(scored: &Vec<Scored>, limit: usize) -> (r: Vec<MemoryNote>)
    ensures
        crate::fields::views_of(r@) == at_most(
            notes_in(crate::fields::views_of(scored@)),
            limit as int,
        ),
{
    let mut out: Vec<MemoryNote> = Vec::new();
    let mut i: usize = 0;
    while i < scored.len() && i < limit
        invariant
            i <= scored.len(),
            i <= limit,
            out@.len() == i,
            forall|k: int| 0 <= k < i ==> (#[trigger] out@[k])@ == scored@[k].note@,
        decreases scored.len() - i,
    {
        out.push(scored[i].note.clone());
        i = i + 1;
    }
    assert(crate::fields::views_of(out@) =~= at_most(
        notes_in(crate::fields::views_of(scored@)),
        limit as int,
    ));
    out
}

/// The first notes of a list, at most `limit`.
pub fn first_notes(notes: &Vec<MemoryNote>, limit: usize) -> (r: Vec<MemoryNote>)
    ensures
        crate::fields::views_of(r@) == at_most(crate::fields::views_of(notes@), limit as int),
{
    let mut out: Vec<MemoryNote> = Vec::new();
    let mut i: usize = 0;
    while i < notes.len() && i < limit
        invariant
            i <= notes.len(),
            i <= limit,
            out@.len() == i,
            forall|k: int| 0 <= k < i ==> (#[trigger] out@[k])@ == notes@[k]@,
        decreases notes.len() - i,
    {
        out.push(notes[i].clone());
        i = i + 1;
    }
    assert(crate::fields::views_of(out@) =~= at_most(
        crate::fields::views_of(notes@),
        limit as int,
    ));
    out
}

/// What a search finds: the best matches first, then the newest; the newest
/// notes where the query has no terms. `notes` is newest first.
pub open spec fn found(
    notes: Seq<MemoryNoteView>,
    terms: Seq<Seq<char>>,
    limit: int,
) -> Seq<MemoryNoteView> {
    if terms.len() == 0 {
        at_most(notes, limit)
    } else {
        at_most(notes_in(crate::order::ranked::<Scored>(hits(notes, terms))), limit)
    }
}

/// `s` with every run of dashes made one dash.
pub open spec fn squeezed(s: Seq<char>) -> Seq<char>
    decreases s.len(),
{
    if s.len() == 0 {
        seq![]
    } else if s.len() > 1 && s.last() == '-' && s[s.len() - 2] == '-' {
        squeezed(s.drop_last())
    } else {
        squeezed(s.drop_last()).push(s.last())
    }
}

/// What stands for a character in a slug.
pub open spec fn slug_char(c: char) -> char {
    if crate::text::is_alnum(c) {
        crate::text::lower_char(c)
    } else {
        '-'
    }
}

/// The first line of a text without white space around it.
pub open spec fn first_line(text: Seq<char>) -> Seq<char> {
    let l = crate::text::line_seq(text);
    if l.len() == 0 {
        seq![]
    } else {
        crate::text::trim(l[0])
    }
}

/// The slug of a note: the start of its first line, in lower-case letters,
/// digits and dashes.
pub open spec fn slug_of(content: Seq<char>) -> Seq<char> {
    let s = crate::text::trim_char(
        squeezed(at_most(first_line(content), 40).map_values(|c: char| slug_char(c))),
        '-',
    );
    if s.len() == 0 {
        "note"@
    } else {
        s
    }
}

/// The name of a note's file without its extension: the slug and a number that
/// tells notes with one slug apart.
pub open spec fn stem_of(content: Seq<char>, nanos: u128) -> Seq<char> {
    slug_of(content) + "-"@ + crate::text::hex(nanos as nat)
}

/// Whether every character is a lower-case letter, a digit or a dash.
pub open spec fn plain_name(s: Seq<char>) -> bool {
    forall|i: int|
        0 <= i < s.len() ==> (#[trigger] s[i] == '-' || crate::text::is_digit(s[i]) || 'a' <= s[i]
            <= 'z')
}

/// `squeezed` adds no character.
proof fn lemma_squeezed_plain(s: Seq<char>)
    requires
        plain_name(s),
    ensures
        plain_name(squeezed(s)),
    decreases s.len(),
{
    if s.len() > 0 {
        let less = s.drop_last();
        assert forall|i: int| 0 <= i < less.len() implies (#[trigger] less[i] == '-'
            || crate::text::is_digit(less[i]) || 'a' <= less[i] <= 'z') by {
            assert(less[i] == s[i]);
        }
        lemma_squeezed_plain(less);
        assert(s[s.len() - 1] == s.last());
    }
}

/// Trimming adds no character.
proof fn lemma_drop_plain(s: Seq<char>, p: spec_fn(char) -> bool)
    requires
        plain_name(s),
    ensures
        plain_name(crate::text::drop_while(s, p)),
        plain_name(crate::text::drop_end(s, p)),
    decreases s.len(),
{
    if s.len() > 0 {
        let a = s.skip(1);
        let b = s.drop_last();
        assert forall|i: int| 0 <= i < a.len() implies (#[trigger] a[i] == '-'
            || crate::text::is_digit(a[i]) || 'a' <= a[i] <= 'z') by {
            assert(a[i] == s[i + 1]);
        }
        assert forall|i: int| 0 <= i < b.len() implies (#[trigger] b[i] == '-'
            || crate::text::is_digit(b[i]) || 'a' <= b[i] <= 'z') by {
            assert(b[i] == s[i]);
        }
        lemma_drop_plain(a, p);
        lemma_drop_plain(b, p);
    }
}

/// Hexadecimal notation is plain.
proof fn lemma_hex_plain(n: nat)
    ensures
        plain_name(crate::text::hex(n)),
    decreases n,
{
    if n >= 16 {
        lemma_hex_plain(n / 16);
    }
}

/// Whatever a note says, the name of its file is made of lower-case letters,
/// digits and dashes, so it names a file in its own directory.
pub proof fn note_file_name_is_plain(content: Seq<char>, nanos: u128)
    ensures
        plain_name(stem_of(content, nanos)),
        stem_of(content, nanos).len() > 0,
{
    reveal_strlit("note");
    reveal_strlit("-");
    let m = at_most(first_line(content), 40).map_values(|c: char| slug_char(c));
    assert(plain_name(m));
    lemma_squeezed_plain(m);
    let set = seq!['-'];
    let p = |x: char| set.contains(x);
    lemma_drop_plain(squeezed(m), p);
    lemma_drop_plain(crate::text::drop_while(squeezed(m), p), p);
    lemma_hex_plain(nanos as nat);
    assert(plain_name(slug_of(content)));
    let whole = stem_of(content, nanos);
    let a = slug_of(content);
    let h = crate::text::hex(nanos as nat);
    assert forall|i: int| 0 <= i < whole.len() implies (#[trigger] whole[i] == '-'
        || crate::text::is_digit(whole[i]) || 'a' <= whole[i] <= 'z') by {
        if i < a.len() {
            assert(whole[i] == a[i]);
        } else if i > a.len() {
            assert(whole[i] == h[i - a.len() - 1]);
        }
    }
}

/// The first line of a text without white space around it.
pub fn read_first_line(text: &str) -> (r: String)
    ensures
        r@ == first_line(text@),
{
    let all = lines(text);
    if all.len() == 0 {
        assert(crate::text::texts(all@).len() == 0);
        let s = String::new();
        assert(s@ =~= seq![]);
        s
    } else {
        assert(crate::text::texts(all@)[0] == all@[0]@);
        trimmed(all[0].as_str())
    }
}

/// The slug of a note.
fn make_slug(content: &str) -> (r: String)
    ensures
        r@ == slug_of(content@),
{
    let line = read_first_line(content);
    let v = chars_of(line.as_str());
    let n: usize = if v.len() > 40 {
        40
    } else {
        v.len()
    };
    let ghost mapped = at_most(first_line(content@), 40).map_values(|c: char| slug_char(c));
    let mut out = String::new();
    let mut i: usize = 0;
    let mut dash: bool = false;
    assert(mapped.take(0) =~= seq![]);
    assert(out@ =~= seq![]);
    while i < n
        invariant
            i <= n <= v.len(),
            n == mapped.len(),
            forall|k: int| 0 <= k < n ==> #[trigger] mapped[k] == slug_char(v@[k]),
            out@ == squeezed(mapped.take(i as int)),
            dash == (i > 0 && mapped[i - 1] == '-'),
        decreases n - i,
    {
        let ghost part = mapped.take(i + 1);
        assert(part.drop_last() =~= mapped.take(i as int));
        let c: char = if alnum(v[i]) {
            to_lower(v[i])
        } else {
            '-'
        };
        assert(part.last() == c);
        assert(i > 0 ==> part[part.len() - 2] == mapped[i - 1]);
        if !(c == '-' && dash) {
            out.push(c);
        }
        dash = c == '-';
        i = i + 1;
    }
    assert(mapped.take(n as int) =~= mapped);
    let slug = trimmed_char(out.as_str(), '-');
    if empty(slug.as_str()) {
        "note".to_owned()
    } else {
        slug
    }
}

/// The name of a note's file without its extension.
pub fn file_stem(content: &str, nanos: u128) -> (r: String)
    ensures
        r@ == stem_of(content@, nanos),
{
    let mut out = make_slug(content);
    out.append("-");
    out.append(hex_of(nanos).as_str());
    out
}

/// The tags of a note as its header names them.
pub open spec fn tags_text(tags: Seq<Seq<char>>) -> Seq<char> {
    "["@ + crate::text::join(tags, ", "@) + "]"@
}

/// The tags of a note as its header names them.
fn format_tags(tags: &Vec<String>) -> (r: String)
    ensures
        r@ == tags_text(crate::text::texts(tags@)),
{
    let mut out = "[".to_owned();
    out.append(join_with(tags, ", ").as_str());
    out.append("]");
    out
}

/// The text of a note's file.
pub open spec fn note_document(content: Seq<char>, tags: Seq<Seq<char>>, created: Seq<char>) -> Seq<
    char,
> {
    "---\ntags: "@ + tags_text(tags) + "\ncreated: "@ + created + "\n---\n"@ + crate::text::trim(
        content,
    ) + "\n"@
}

/// A list of tags without the brackets around it.
pub open spec fn bare_tags(value: Seq<char>) -> Seq<char> {
    let v = crate::text::trim(value);
    if v.len() >= 2 && v[0] == '[' && v.last() == ']' {
        v.subrange(1, v.len() - 1)
    } else {
        v
    }
}

/// One tag without white space and quotes around it.
pub open spec fn tag_of(piece: Seq<char>) -> Seq<char> {
    crate::text::trim_set(crate::text::trim(piece), "\"'"@)
}

/// The tags of pieces, without empty ones.
pub open spec fn tags_of(pieces: Seq<Seq<char>>) -> Seq<Seq<char>>
    decreases pieces.len(),
{
    if pieces.len() == 0 {
        seq![]
    } else if tag_of(pieces.last()).len() == 0 {
        tags_of(pieces.drop_last())
    } else {
        tags_of(pieces.drop_last()).push(tag_of(pieces.last()))
    }
}

/// The tags that a header line names.
pub open spec fn tags_in(value: Seq<char>) -> Seq<Seq<char>> {
    tags_of(crate::text::split(bare_tags(value), ','))
}

/// The tags that a header line names.
pub fn parse_tags(value: &str) -> (r: Vec<String>)
    ensures
        crate::text::texts(r@) == tags_in(value@),
{
    let t = trimmed(value);
    let v = chars_of(t.as_str());
    let bare: String = if v.len() >= 2 && v[0] == '[' && v[v.len() - 1] == ']' {
        string_of(&v, 1, v.len() - 1)
    } else {
        t
    };
    assert(bare@ =~= bare_tags(value@));
    let pieces = split_on(bare.as_str(), ',');
    let ghost all = crate::text::texts(pieces@);
    let mut out: Vec<String> = Vec::new();
    let mut i: usize = 0;
    assert(all.take(0) =~= seq![]);
    assert(crate::text::texts(out@) =~= seq![]);
    while i < pieces.len()
        invariant
            i <= pieces.len(),
            all == crate::text::texts(pieces@),
            crate::text::texts(out@) == tags_of(all.take(i as int)),
        decreases pieces.len() - i,
    {
        assert(all.take(i + 1).drop_last() =~= all.take(i as int));
        assert(all.take(i + 1).last() == pieces@[i as int]@);
        let ghost before = crate::text::texts(out@);
        let tag = trimmed_set(trimmed(pieces[i].as_str()).as_str(), "\"'");
        if !empty(tag.as_str()) {
            out.push(tag);
            assert(crate::text::texts(out@) =~= before.push(tag@));
        }
        i = i + 1;
    }
    assert(all.take(i as int) =~= all);
    out
}

/// What a header says.
#[verifier::ext_equal]
pub struct HeaderView {
    pub tags: Seq<Seq<char>>,
    pub created: Option<Seq<char>>,
}

/// A header after one line: `tags` and `created` count, in any case.
pub open spec fn with_line(h: HeaderView, line: Seq<char>) -> HeaderView {
    match crate::text::find_from(line, ":"@, 0) {
        None => h,
        Some(i) => {
            let key = crate::text::ascii_lower(crate::text::trim(line.take(i)));
            let value = line.skip(i + 1);
            if key == "tags"@ {
                HeaderView { tags: tags_in(value), ..h }
            } else if key == "created"@ && crate::text::trim(value).len() > 0 {
                HeaderView { created: Some(crate::text::trim(value)), ..h }
            } else {
                h
            }
        },
    }
}

/// What the lines of a header say.
pub open spec fn header_of(lines: Seq<Seq<char>>) -> HeaderView
    decreases lines.len(),
{
    if lines.len() == 0 {
        HeaderView { tags: seq![], created: None }
    } else {
        with_line(header_of(lines.drop_last()), lines.last())
    }
}

/// What follows the first line of dashes, where the text begins with one.
pub open spec fn after_dashes(text: Seq<char>) -> Option<Seq<char>> {
    let rest = text.skip(3);
    if crate::text::begins(rest, "\r\n"@) {
        Some(rest.skip(2))
    } else if crate::text::begins(rest, "\n"@) {
        Some(rest.skip(1))
    } else {
        None
    }
}

/// A text without byte order marks at its start.
pub open spec fn unmarked(text: Seq<char>) -> Seq<char> {
    crate::text::trim_start_set(text, "\u{feff}"@)
}

/// What a note's file says: its header and its text.
pub open spec fn note_parts(text: Seq<char>) -> (HeaderView, Seq<char>) {
    let none = HeaderView { tags: seq![], created: None };
    let t = unmarked(text);
    if crate::text::begins(t, "---"@) {
        match after_dashes(t) {
            Some(rest) => match crate::text::find_from(rest, "\n---"@, 0) {
                Some(pos) => (
                    header_of(crate::text::line_seq(rest.take(pos))),
                    crate::text::trim_end(
                        crate::text::trim_start_set(rest.skip(pos + 4), "\r\n"@),
                    ),
                ),
                None => (none, crate::text::trim(rest)),
            },
            None => (none, seq![]),
        }
    } else {
        (none, crate::text::trim(t))
    }
}

/// The lines of a header.
fn read_header(text: &str) -> (r: (Vec<String>, Option<String>))
    ensures
        ({
            let h = header_of(crate::text::line_seq(text@));
            crate::text::texts(r.0@) == h.tags && crate::text::opt_text(r.1) == h.created
        }),
{
    let all = lines(text);
    let ghost ls = crate::text::texts(all@);
    let mut tags: Vec<String> = Vec::new();
    let mut created: Option<String> = None;
    let mut i: usize = 0;
    assert(ls.take(0) =~= seq![]);
    assert(crate::text::texts(tags@) =~= seq![]);
    proof {
        reveal_strlit(":");
    }
    while i < all.len()
        invariant
            i <= all.len(),
            ls == crate::text::texts(all@),
            crate::text::texts(tags@) == header_of(ls.take(i as int)).tags,
            crate::text::opt_text(created) == header_of(ls.take(i as int)).created,
            ":"@.len() == 1,
        decreases all.len() - i,
    {
        assert(ls.take(i + 1).drop_last() =~= ls.take(i as int));
        assert(ls.take(i + 1).last() == all@[i as int]@);
        if let Some((key, value)) = split_once(all[i].as_str(), ":") {
            let key = lower(trimmed(key.as_str()).as_str());
            if same(key.as_str(), "tags") {
                tags = parse_tags(value.as_str());
            } else if same(key.as_str(), "created") {
                let v = trimmed(value.as_str());
                if !empty(v.as_str()) {
                    created = Some(v);
                }
            }
        }
        i = i + 1;
    }
    assert(ls.take(i as int) =~= ls);
    (tags, created)
}

/// Reads a note. Anything can be read: a file without a header, or with a broken
/// one, is all text.
pub fn parse_note(path: &str, day: &str, slug: &str, text: &str, modified_unix: u64) -> (r:
    MemoryNote)
    ensures
        r@ == (MemoryNoteView {
            path: path@,
            day: day@,
            slug: slug@,
            tags: note_parts(text@).0.tags,
            created: note_parts(text@).0.created,
            content: note_parts(text@).1,
            modified_unix: modified_unix,
        }),
{
    let t = trimmed_start_set(text, "\u{feff}");
    let mut tags: Vec<String> = Vec::new();
    let mut created: Option<String> = None;
    assert(crate::text::texts(tags@) =~= seq![]);
    proof {
        reveal_strlit("---");
        reveal_strlit("\r\n");
        reveal_strlit("\n");
        reveal_strlit("\n---");
    }
    let content: String = match strip_prefix(t.as_str(), "---") {
        Some(rest) => {
            let after: Option<String> = match strip_prefix(rest.as_str(), "\r\n") {
                Some(s) => Some(s),
                None => strip_prefix(rest.as_str(), "\n"),
            };
            match after {
                Some(rest) => match split_once(rest.as_str(), "\n---") {
                    Some((header, body)) => {
                        let (found_tags, found_created) = read_header(header.as_str());
                        tags = found_tags;
                        created = found_created;
                        trimmed_end(trimmed_start_set(body.as_str(), "\r\n").as_str())
                    },
                    None => trimmed(rest.as_str()),
                },
                None => {
                    let s = String::new();
                    assert(s@ =~= seq![]);
                    s
                },
            }
        },
        None => trimmed(t.as_str()),
    };
    MemoryNote {
        path: path.to_owned(),
        day: day.to_owned(),
        slug: slug.to_owned(),
        tags,
        created,
        content,
        modified_unix,
    }
}

/// Whether a name is a day: `YYYY-MM-DD` in digits.
pub open spec fn day_name(name: Seq<char>) -> bool {
    &&& name.len() == 10
    &&& forall|i: int|
        0 <= i < 10 ==> if i == 4 || i == 7 {
            #[trigger] name[i] == '-'
        } else {
            crate::text::is_digit(name[i])
        }
}

/// Whether a name is a day.
pub fn is_day_dir(name: &str) -> (r: bool)
    ensures
        r == day_name(name@),
{
    let v = chars_of(name);
    if v.len() != 10 {
        return false;
    }
    let mut i: usize = 0;
    while i < 10
        invariant
            v@ == name@,
            v.len() == 10,
            i <= 10,
            forall|k: int|
                0 <= k < i ==> if k == 4 || k == 7 {
                    #[trigger] v@[k] == '-'
                } else {
                    crate::text::is_digit(v@[k])
                },
        decreases 10 - i,
    {
        let ok = if i == 4 || i == 7 {
            v[i] == '-'
        } else {
            digit(v[i])
        };
        if !ok {
            assert(v@[i as int] == name@[i as int]);
            return false;
        }
        i = i + 1;
    }
    true
}

/// The slug of a note's file, from the file's name.
pub open spec fn slug_in_name(name: Seq<char>) -> Option<Seq<char>> {
    if crate::text::ends(name, ".md"@) && name.len() > 3 {
        Some(name.take(name.len() - 3))
    } else {
        None
    }
}

/// The slug of a note's file, from the file's name; none for other files.
pub fn slug_of_file(name: &str) -> (r: Option<String>)
    ensures
        crate::text::opt_text(r) == slug_in_name(name@),
{
    proof {
        reveal_strlit(".md");
    }
    let v = chars_of(name);
    if ends_with(name, ".md") && v.len() > 3 {
        let slug = string_of(&v, 0, v.len() - 3);
        assert(slug@ =~= name@.take(name@.len() - 3));
        Some(slug)
    } else {
        None
    }
}

/// A file of a day's directory.
#[derive(Debug)]
pub struct NoteFile {
    pub path: String,
    pub day: String,
    pub name: String,
    /// The text; none where it could not be read.
    pub text: Option<String>,
    pub modified_unix: u64,
}

/// The content of a [`NoteFile`].
#[verifier::ext_equal]
pub struct NoteFileView {
    pub path: Seq<char>,
    pub day: Seq<char>,
    pub name: Seq<char>,
    pub text: Option<Seq<char>>,
    pub modified_unix: u64,
}

impl View for NoteFile {
    type V = NoteFileView;

    open spec fn view(&self) -> NoteFileView {
        NoteFileView {
            path: self.path@,
            day: self.day@,
            name: self.name@,
            text: crate::text::opt_text(self.text),
            modified_unix: self.modified_unix,
        }
    }
}

/// The note in a file; none where it is not in a day's directory, is not
/// Markdown or could not be read.
pub open spec fn note_in(f: NoteFileView) -> Option<MemoryNoteView> {
    match (slug_in_name(f.name), f.text) {
        (Some(slug), Some(text)) => if day_name(f.day) {
            Some(
                MemoryNoteView {
                    path: f.path,
                    day: f.day,
                    slug: slug,
                    tags: note_parts(text).0.tags,
                    created: note_parts(text).0.created,
                    content: note_parts(text).1,
                    modified_unix: f.modified_unix,
                },
            )
        } else {
            None
        },
        _ => None,
    }
}

/// The notes in a list of files.
pub open spec fn notes_in_files(files: Seq<NoteFileView>) -> Seq<MemoryNoteView>
    decreases files.len(),
{
    if files.len() == 0 {
        seq![]
    } else {
        match note_in(files.last()) {
            Some(note) => notes_in_files(files.drop_last()).push(note),
            None => notes_in_files(files.drop_last()),
        }
    }
}

/// Where notes are kept: one directory per day below a root.
#[derive(Debug)]
pub struct MemoryStore {
    dir: String,
}

impl View for MemoryStore {
    type V = Seq<char>;

    closed spec fn view(&self) -> Seq<char> {
        self.dir@
    }
}

impl Clone for MemoryStore {
    fn clone(&self) -> (r: Self)
        ensures
            r@ == self@,
    {
        MemoryStore { dir: self.dir.clone() }
    }
}

impl MemoryStore {
    /// A store below a root.
    pub fn new(dir: &str) -> (r: MemoryStore)
        ensures
            r@ == dir@,
    {
        MemoryStore { dir: dir.to_owned() }
    }

    /// The root.
    pub fn dir(&self) -> (r: &str)
        ensures
            r@ == self@,
    {
        self.dir.as_str()
    }

    /// The directory of a day.
    pub fn day_dir(&self, today: &str) -> (r: String)
        ensures
            r@ == crate::paths::joined(self@, today@),
    {
        join_path(self.dir.as_str(), today)
    }

    /// The path and the text that writing a note for `today` writes; `nanos`
    /// tells notes with one slug apart.
    pub fn write(&self, content: &str, tags: &Vec<String>, today: &str, nanos: u128) -> (r: (
        String,
        String,
    ))
        ensures
            r.0@ == crate::paths::joined(
                crate::paths::joined(self@, today@),
                stem_of(content@, nanos) + ".md"@,
            ),
            r.1@ == note_document(content@, crate::text::texts(tags@), today@),
    {
        let mut name = file_stem(content, nanos);
        name.append(".md");
        let path = join_path(self.day_dir(today).as_str(), name.as_str());
        let mut document = "---\ntags: ".to_owned();
        document.append(format_tags(tags).as_str());
        document.append("\ncreated: ");
        document.append(today);
        document.append("\n---\n");
        document.append(trimmed(content).as_str());
        document.append("\n");
        (path, document)
    }

    /// Whether one of the notes has exactly this text.
    pub fn contains_body(&self, notes: &Vec<MemoryNote>, content: &str) -> (r: bool)
        ensures
            r == has_body(crate::fields::views_of(notes@), content@),
    {
        let body = trimmed(content);
        let ghost all = crate::fields::views_of(notes@);
        let mut i: usize = 0;
        while i < notes.len()
            invariant
                i <= notes.len(),
                all == crate::fields::views_of(notes@),
                body@ == crate::text::trim(content@),
                forall|k: int| 0 <= k < i ==> crate::text::trim((#[trigger] all[k]).content)
                    != body@,
            decreases notes.len() - i,
        {
            assert(all[i as int] == notes@[i as int]@);
            if same(trimmed(notes[i].content.as_str()).as_str(), body.as_str()) {
                return true;
            }
            i = i + 1;
        }
        false
    }

    /// The notes in the files below the root, newest first. Files that are not
    /// notes are skipped, never fatal.
    pub fn list(&self, files: &Vec<NoteFile>) -> (r: Vec<MemoryNote>)
        ensures
            crate::fields::views_of(r@) == crate::order::ranked::<MemoryNote>(
                notes_in_files(crate::fields::views_of(files@)),
            ),
    {
        let ghost all = crate::fields::views_of(files@);
        let mut notes: Vec<MemoryNote> = Vec::new();
        let mut i: usize = 0;
        assert(all.take(0) =~= seq![]);
        assert(crate::fields::views_of(notes@) =~= seq![]);
        while i < files.len()
            invariant
                i <= files.len(),
                all == crate::fields::views_of(files@),
                crate::fields::views_of(notes@) == notes_in_files(all.take(i as int)),
            decreases files.len() - i,
        {
            assert(all.take(i + 1).drop_last() =~= all.take(i as int));
            let f = &files[i];
            assert(all.take(i + 1).last() == f@);
            let ghost before = crate::fields::views_of(notes@);
            if is_day_dir(f.day.as_str()) {
                if let Some(slug) = slug_of_file(f.name.as_str()) {
                    if let Some(text) = &f.text {
                        let note = parse_note(
                            f.path.as_str(),
                            f.day.as_str(),
                            slug.as_str(),
                            text.as_str(),
                            f.modified_unix,
                        );
                        notes.push(note);
                        assert(crate::fields::views_of(notes@) =~= before.push(note@));
                    }
                }
            }
            i = i + 1;
        }
        assert(all.take(i as int) =~= all);
        crate::order::sort(notes)
    }

    /// The notes that match a query, best match first, then newest; the newest
    /// ones for an empty query. `notes` is newest first.
    pub fn search(&self, notes: &Vec<MemoryNote>, query: &str, limit: usize) -> (r: Vec<MemoryNote>)
        ensures
            crate::fields::views_of(r@) == found(
                crate::fields::views_of(notes@),
                crate::memory::terms_of(query@, 1),
                limit as int,
            ),
    {
        let terms = crate::memory::query_terms(query, 1);
        search_terms(notes, &terms, limit)
    }
}

/// Whether one of the notes has the text `content`.
pub open spec fn has_body(notes: Seq<MemoryNoteView>, content: Seq<char>) -> bool {
    exists|i: int|
        0 <= i < notes.len() && crate::text::trim((#[trigger] notes[i]).content)
            == crate::text::trim(content)
}

/// The notes that match a list of terms.
pub fn search_terms(notes: &Vec<MemoryNote>, terms: &Vec<String>, limit: usize) -> (r: Vec<
    MemoryNote,
>)
    ensures
        crate::fields::views_of(r@) == found(
            crate::fields::views_of(notes@),
            crate::text::texts(terms@),
            limit as int,
        ),
{
    if terms.len() == 0 {
        return first_notes(notes, limit);
    }
    let scored = crate::order::sort(find_hits(notes, terms));
    take_notes(&scored, limit)
}

/// The local calendar time of a moment.
#[derive(Debug, Clone, Copy, PartialEq, Eq, Structural)]
pub struct LocalTm {
    pub year: i32,
    pub month: u8,
    pub day: u8,
    pub hour: u8,
    pub minute: u8,
}

/// A year of at least four characters, its sign among them.
pub open spec fn year_text(year: int) -> Seq<char> {
    if year < 0 {
        "-"@ + crate::text::zero_padded(crate::text::decimal((-year) as nat), 3)
    } else {
        crate::text::zero_padded(crate::text::decimal(year as nat), 4)
    }
}

/// The local date of a moment; its date in UTC where the local time is not
/// known.
pub open spec fn local_day(unix: int, tm: Option<LocalTm>) -> Seq<char> {
    match tm {
        Some(t) => year_text(t.year as int) + "-"@ + crate::time::two(t.month as int) + "-"@
            + crate::time::two(t.day as int),
        None => utc_day(unix),
    }
}

/// The date of a moment in UTC: the first ten characters of its timestamp. What
/// lies before 1970 counts as 1970-01-01.
pub open spec fn utc_day(unix: int) -> Seq<char> {
    at_most(
        crate::time::rfc3339(
            if unix < 0 {
                0
            } else {
                unix
            },
        ),
        10,
    )
}

/// The date of a moment in UTC.
pub fn utc_date_from_unix(unix: i64) -> (r: String)
    ensures
        r@ == utc_day(unix as int),
{
    let seconds: u64 = if unix < 0 {
        0
    } else {
        unix as u64
    };
    let whole = rfc3339_from_unix(seconds);
    let v = chars_of(whole.as_str());
    let n: usize = if v.len() > 10 {
        10
    } else {
        v.len()
    };
    let r = string_of(&v, 0, n);
    assert(r@ =~= utc_day(unix as int));
    r
}

/// The local date of a moment, given its local time.
pub fn local_date_from_unix(unix: i64, tm: Option<LocalTm>) -> (r: String)
    ensures
        r@ == local_day(unix as int, tm),
{
    match tm {
        Some(t) => {
            let mut out = String::new();
            if t.year < 0 {
                out.append("-");
                out.append(decimal_padded((-(t.year as i64)) as u64, 3).as_str());
            } else {
                out.append(decimal_padded(t.year as u64, 4).as_str());
            }
            assert(out@ =~= year_text(t.year as int));
            out.append("-");
            out.append(decimal_padded(t.month as u64, 2).as_str());
            out.append("-");
            out.append(decimal_padded(t.day as u64, 2).as_str());
            out
        },
        None => utc_date_from_unix(unix),
    }
}

/// The minutes since midnight of a moment, given its local time; in UTC where it
/// is not known.
pub fn local_minutes_from_unix(unix: i64, tm: Option<LocalTm>) -> (r: u32)
    ensures
        r == (match tm {
            Some(t) => t.hour * 60 + t.minute,
            None => (unix as int % 86400) / 60,
        }),
{
    match tm {
        Some(t) => (t.hour as u32) * 60 + t.minute as u32,
        None => {
            let seconds: u64 = if unix >= 0 {
                (unix as u64) % 86400
            } else {
                let back: u64 = (-(unix + 1)) as u64;
                86399 - back % 86400
            };
            assert(seconds == unix as int % 86400);
            (seconds / 60) as u32
        },
    }
}

/// Today's date, given the local time.
pub fn local_date(tm: Option<LocalTm>) -> (r: String)
    ensures
        exists|unix: u64| unix <= i64::MAX && r@ == local_day(unix as int, tm),
{
    let now = now_unix();
    let unix: u64 = if now > i64::MAX as u64 {
        i64::MAX as u64
    } else {
        now
    };
    let r = local_date_from_unix(unix as i64, tm);
    assert(unix <= i64::MAX && r@ == local_day(unix as int, tm));
    r
}

} // verus!

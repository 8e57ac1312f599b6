//! What is written as a note is read back as that note.

use vstd::multiset::Multiset;
use vstd::prelude::*;

use crate::memory::store::{
    day_name, has_body, note_document, note_in, note_parts, notes_in_files, stem_of, tag_of,
    tags_in, tags_of, tags_text, with_line, HeaderView, MemoryNote,
    MemoryNoteView, NoteFileView,
};

verus! {

/// Whether a text holds no character `c`.
pub open spec fn lacks(s: Seq<char>, c: char) -> bool {
    forall|i: int| 0 <= i < s.len() ==> #[trigger] s[i] != c
}

/// Whether a tag can stand in a header: it is not empty, has no white space and
/// no quotes around it, and holds neither a comma nor a line feed.
pub open spec fn plain_tag(t: Seq<char>) -> bool {
    &&& t.len() > 0
    &&& lacks(t, ',')
    &&& lacks(t, '\n')
    &&& crate::text::trim(t) == t
    &&& crate::text::trim_set(t, "\"'"@) == t
}

/// What is left by `drop_while` does not begin with what was dropped.
proof fn lemma_drop_while(s: Seq<char>, p: spec_fn(char) -> bool)
    ensures
        crate::text::drop_while(s, p).len() <= s.len(),
        crate::text::drop_while(s, p).len() > 0 ==> !p(crate::text::drop_while(s, p)[0]),
    decreases s.len(),
{
    if s.len() > 0 && p(s[0]) {
        lemma_drop_while(s.skip(1), p);
    }
}

/// What is left by `drop_end` is a start that does not end with what was dropped.
proof fn lemma_drop_end(s: Seq<char>, p: spec_fn(char) -> bool)
    ensures
        crate::text::drop_end(s, p).len() <= s.len(),
        crate::text::drop_end(s, p) == s.take(crate::text::drop_end(s, p).len() as int),
        crate::text::drop_end(s, p).len() > 0 ==> !p(crate::text::drop_end(s, p).last()),
    decreases s.len(),
{
    if s.len() > 0 && p(s.last()) {
        lemma_drop_end(s.drop_last(), p);
        let n = crate::text::drop_end(s, p).len() as int;
        assert(s.drop_last().take(n) =~= s.take(n));
    } else {
        assert(s.take(s.len() as int) =~= s);
    }
}

/// A trimmed text neither begins nor ends with white space.
pub proof fn lemma_trim_ends(s: Seq<char>)
    ensures
        crate::text::trim(s).len() > 0 ==> !crate::text::is_space(crate::text::trim(s)[0])
            && !crate::text::is_space(crate::text::trim(s).last()),
{
    let p = |c: char| crate::text::is_space(c);
    lemma_drop_while(s, p);
    lemma_drop_end(crate::text::drop_while(s, p), p);
}

/// A solid text after one space.
proof fn lemma_trim_space(t: Seq<char>)
    requires
        t.len() > 0,
        !crate::text::is_space(t[0]),
        !crate::text::is_space(t.last()),
    ensures
        crate::text::trim(" "@ + t) == t,
{
    reveal_strlit(" ");
    let s = " "@ + t;
    let p = |c: char| crate::text::is_space(c);
    assert(s[0] == ' ');
    assert(p(s[0]));
    assert(s.skip(1) =~= t);
    assert(!p(t[0]));
    assert(!p(t.last()));
    assert(crate::text::drop_while(t, p) == t);
    assert(crate::text::drop_while(s, p) == crate::text::drop_while(t, p));
    assert(crate::text::drop_end(t, p) == t);
}

/// A piece at the end of a split text.
proof fn lemma_split_push(a: Seq<char>, b: Seq<char>, c: char)
    requires
        lacks(b, c),
    ensures
        crate::text::split(a + seq![c] + b, c) == crate::text::split(a, c).push(b),
    decreases a.len(),
{
    let s = a + seq![c] + b;
    crate::text::lemma_split_len(a, c);
    if a.len() == 0 {
        assert(s[0] == c);
        assert(s.skip(1) =~= b);
        crate::text::lemma_split_none(b, c);
        assert(a =~= seq![]);
        assert(seq![Seq::<char>::empty()] + seq![b] =~= seq![a].push(b));
    } else {
        assert(s.skip(1) =~= a.skip(1) + seq![c] + b);
        lemma_split_push(a.skip(1), b, c);
        crate::text::lemma_split_len(a.skip(1), c);
        let rest = crate::text::split(a.skip(1), c);
        assert(s[0] == a[0]);
        if a[0] == c {
            assert(seq![Seq::<char>::empty()] + rest.push(b) =~= (seq![Seq::<char>::empty()]
                + rest).push(b));
        } else {
            assert(rest.push(b)[0] == rest[0]);
            assert(rest.push(b).update(0, seq![a[0]] + rest[0]) =~= rest.update(
                0,
                seq![a[0]] + rest[0],
            ).push(b));
        }
    }
}

/// Tags that were joined are found again.
proof fn lemma_tags_back(tags: Seq<Seq<char>>)
    requires
        forall|i: int| 0 <= i < tags.len() ==> plain_tag(#[trigger] tags[i]),
    ensures
        tags_of(crate::text::split(crate::text::join(tags, ", "@), ',')) == tags,
    decreases tags.len(),
{
    reveal_strlit(", ");
    reveal_strlit(" ");
    reveal_with_fuel(tags_of, 2);
    let whole = crate::text::join(tags, ", "@);
    if tags.len() == 0 {
        assert(crate::text::split(whole, ',') =~= seq![seq![]]);
        let empty = Seq::<char>::empty();
        crate::text::lemma_trim_solid(empty);
        assert(tag_of(empty) =~= empty);
        assert(tags =~= seq![]);
        assert(crate::text::split(whole, ',').drop_last() =~= seq![]);
    } else if tags.len() == 1 {
        let t = tags[0];
        assert(plain_tag(t));
        crate::text::lemma_split_none(t, ',');
        assert(seq![t].drop_last() =~= seq![]);
        assert(tags =~= seq![t]);
        assert(tags_of(seq![t]) =~= seq![t]);
    } else {
        let less = tags.drop_last();
        let t = tags.last();
        assert(plain_tag(tags[tags.len() - 1]));
        assert forall|i: int| 0 <= i < less.len() implies plain_tag(#[trigger] less[i]) by {
            assert(less[i] == tags[i]);
        }
        lemma_tags_back(less);
        let head = crate::text::join(less, ", "@);
        let piece = " "@ + t;
        assert(whole =~= head + seq![','] + piece);
        lemma_split_push(head, piece, ',');
        lemma_trim_ends(t);
        lemma_trim_space(t);
        let pieces = crate::text::split(head, ',');
        assert(pieces.push(piece).drop_last() =~= pieces);
        assert(tag_of(piece) == t);
        assert(less.push(t) =~= tags);
    }
}

/// Joined texts without line feeds hold none.
proof fn lemma_join_lacks(parts: Seq<Seq<char>>)
    requires
        forall|i: int| 0 <= i < parts.len() ==> lacks(#[trigger] parts[i], '\n'),
    ensures
        lacks(crate::text::join(parts, ", "@), '\n'),
    decreases parts.len(),
{
    reveal_strlit(", ");
    if parts.len() == 1 {
        assert(lacks(parts[0], '\n'));
    } else if parts.len() > 1 {
        let less = parts.drop_last();
        assert forall|i: int| 0 <= i < less.len() implies lacks(#[trigger] less[i], '\n') by {
            assert(less[i] == parts[i]);
        }
        lemma_join_lacks(less);
        assert(lacks(parts[parts.len() - 1], '\n'));
        let a = crate::text::join(less, ", "@);
        let b = parts.last();
        let whole = crate::text::join(parts, ", "@);
        assert forall|i: int| 0 <= i < whole.len() implies #[trigger] whole[i] != '\n' by {
            if i < a.len() {
                assert(whole[i] == a[i]);
            } else if i >= a.len() + 2 {
                assert(whole[i] == b[i - a.len() - 2]);
            }
        }
    }
}

/// The two lines of a header.
proof fn lemma_two_lines(a: Seq<char>, b: Seq<char>)
    requires
        a.len() > 0,
        b.len() > 0,
        lacks(a, '\n'),
        lacks(b, '\n'),
        a.last() != '\r',
    ensures
        crate::text::line_seq(a + "\n"@ + b) == seq![a, b],
{
    reveal_strlit("\n");
    let s = a + "\n"@ + b;
    let n = a.len() as int;
    assert forall|k: int| 0 <= k < n implies s[k] != '\n' by {
        assert(s[k] == a[k]);
    }
    crate::text::lemma_index_of_char(s, '\n', n);
    assert(s.take(n) =~= a);
    assert(s.skip(n + 1) =~= b);
    crate::text::lemma_index_of_char(b, '\n', b.len() as int);
    assert(crate::text::line_seq(b) =~= seq![b]);
    assert(seq![a] + seq![b] =~= seq![a, b]);
}

/// The header line of the tags.
proof fn lemma_tags_line(h: HeaderView, tags: Seq<Seq<char>>)
    requires
        forall|i: int| 0 <= i < tags.len() ==> plain_tag(#[trigger] tags[i]),
    ensures
        with_line(h, "tags: "@ + tags_text(tags)) == (HeaderView { tags: tags, ..h }),
{
    reveal_strlit("tags: ");
    reveal_strlit("tags");
    reveal_strlit(":");
    reveal_strlit(" ");
    reveal_strlit("[");
    reveal_strlit("]");
    let list = tags_text(tags);
    let line = "tags: "@ + list;
    assert(line.subrange(4, 5) =~= ":"@);
    assert forall|k: int| 0 <= k < 4 implies !crate::text::occurs_at(line, ":"@, k) by {
        let w = line.subrange(k, k + 1);
        assert(w[0] == line[k]);
        assert(line[k] == "tags: "@[k]);
        assert(":"@[0] == ':');
    }
    assert(crate::text::occurs_at(line, ":"@, 4));
    crate::text::lemma_find_from(line, ":"@, 0);
    assert(crate::text::find_from(line, ":"@, 0) == Some(4int));
    assert(line.take(4) =~= "tags"@);
    crate::text::lemma_trim_solid("tags"@);
    assert(crate::text::ascii_lower("tags"@) =~= "tags"@);
    assert(line.skip(5) =~= " "@ + list);
    assert(list[0] == '[');
    assert(list.last() == ']');
    lemma_trim_space(list);
    let inner = crate::text::join(tags, ", "@);
    assert(list.subrange(1, list.len() - 1) =~= inner);
    lemma_tags_back(tags);
    assert(tags_in(line.skip(5)) == tags);
}

/// The header line of the date.
proof fn lemma_created_line(h: HeaderView, created: Seq<char>)
    requires
        created.len() > 0,
        crate::text::trim(created) == created,
    ensures
        with_line(h, "created: "@ + created) == (HeaderView { created: Some(created), ..h }),
{
    reveal_strlit("created: ");
    reveal_strlit("created");
    reveal_strlit("tags");
    reveal_strlit(":");
    reveal_strlit(" ");
    let line = "created: "@ + created;
    assert(line.subrange(7, 8) =~= ":"@);
    assert forall|k: int| 0 <= k < 7 implies !crate::text::occurs_at(line, ":"@, k) by {
        let w = line.subrange(k, k + 1);
        assert(w[0] == line[k]);
        assert(line[k] == "created: "@[k]);
        assert(":"@[0] == ':');
    }
    assert(crate::text::occurs_at(line, ":"@, 7));
    crate::text::lemma_find_from(line, ":"@, 0);
    assert(crate::text::find_from(line, ":"@, 0) == Some(7int));
    assert(line.take(7) =~= "created"@);
    crate::text::lemma_trim_solid("created"@);
    assert(crate::text::ascii_lower("created"@) =~= "created"@);
    assert("created"@.len() != "tags"@.len());
    assert(line.skip(8) =~= " "@ + created);
    lemma_trim_ends(created);
    lemma_trim_space(created);
}

/// The text of a note after its header.
proof fn lemma_body_back(content: Seq<char>)
    ensures
        crate::text::trim_end(
            crate::text::trim_start_set("\n"@ + crate::text::trim(content) + "\n"@, "\r\n"@),
        ) == crate::text::trim(content),
{
    reveal_strlit("\n");
    reveal_strlit("\r\n");
    let body = crate::text::trim(content);
    let s = "\n"@ + body + "\n"@;
    let set = "\r\n"@;
    let p = |c: char| set.contains(c);
    let q = |c: char| crate::text::is_space(c);
    lemma_trim_ends(content);
    assert(set[1] == '\n');
    assert(p('\n'));
    assert(s[0] == '\n');
    let rest = body + "\n"@;
    assert(s.skip(1) =~= rest);
    assert(crate::text::drop_while(s, p) == crate::text::drop_while(rest, p));
    if body.len() == 0 {
        assert(rest =~= seq!['\n']);
        assert(rest.skip(1) =~= seq![]);
        assert(p(rest[0]));
        assert(crate::text::drop_while(rest, p) =~= crate::text::drop_while(rest.skip(1), p));
        assert(crate::text::drop_while(rest, p) =~= seq![]);
        assert(crate::text::drop_end(Seq::<char>::empty(), q) =~= seq![]);
        assert(body =~= seq![]);
    } else {
        assert(rest[0] == body[0]);
        assert(set.contains(body[0]) ==> crate::text::is_space(body[0])) by {
            if set.contains(body[0]) {
                let k = choose|k: int| 0 <= k < set.len() && set[k] == body[0];
                assert(set[0] == '\r' && set[1] == '\n');
            }
        }
        assert(!p(rest[0]));
        assert(crate::text::drop_while(rest, p) == rest);
        assert(rest.last() == '\n');
        assert(q(rest.last()));
        assert(rest.drop_last() =~= body);
        assert(!q(body.last()));
        assert(crate::text::drop_end(rest, q) == crate::text::drop_end(body, q));
        assert(crate::text::drop_end(body, q) == body);
    }
}

/// The header of a note as it is written.
spec fn written_header(tags: Seq<Seq<char>>, created: Seq<char>) -> Seq<char> {
    "tags: "@ + tags_text(tags) + "\n"@ + ("created: "@ + created)
}

/// A note that was written falls apart into its header and its text.
#[verifier::rlimit(40)]
proof fn lemma_note_split(content: Seq<char>, tags: Seq<Seq<char>>, created: Seq<char>)
    requires
        forall|i: int| 0 <= i < tags.len() ==> lacks(#[trigger] tags[i], '\n'),
        lacks(created, '\n'),
    ensures
        note_parts(note_document(content, tags, created)) == (
            crate::memory::store::header_of(
                crate::text::line_seq(written_header(tags, created)),
            ),
            crate::text::trim(content),
        ),
{
    reveal_strlit("---\ntags: ");
    reveal_strlit("tags: ");
    reveal_strlit("\ncreated: ");
    reveal_strlit("created: ");
    reveal_strlit("\n---\n");
    reveal_strlit("\n---");
    reveal_strlit("---");
    reveal_strlit("\r\n");
    reveal_strlit("\n");
    reveal_strlit("[");
    reveal_strlit("]");
    reveal_strlit("\u{feff}");
    let body = crate::text::trim(content);
    let list = tags_text(tags);
    let doc = note_document(content, tags, created);
    let one = "tags: "@ + list;
    let two = "created: "@ + created;
    let header = one + "\n"@ + two;
    let rest = header + "\n---\n"@ + body + "\n"@;
    assert(doc.skip(4) =~= rest);
    assert(doc[0] == '-');
    let set = "\u{feff}"@;
    assert(!set.contains('-')) by {
        if set.contains('-') {
            let k = choose|k: int| 0 <= k < set.len() && set[k] == '-';
            assert(set[0] == '\u{feff}');
        }
    }
    assert(crate::memory::store::unmarked(doc) == doc);
    assert(doc.subrange(0, 3) =~= "---"@);
    let tail = doc.skip(3);
    assert(tail[0] == '\n');
    assert(!crate::text::begins(tail, "\r\n"@)) by {
        let w = tail.subrange(0, 2);
        assert(w[0] == tail[0]);
        assert("\r\n"@[0] == '\r');
    }
    assert(tail.subrange(0, 1) =~= "\n"@);
    assert(tail.skip(1) =~= rest);
    assert(crate::memory::store::after_dashes(doc) == Some(rest));
    // Where the header ends.
    let pos = header.len() as int;
    lemma_join_lacks(tags);
    let inner = crate::text::join(tags, ", "@);
    assert forall|i: int| 0 <= i < one.len() implies #[trigger] one[i] != '\n' by {
        if i < 6 {
            assert(one[i] == "tags: "@[i]);
        } else if i > 6 && i < one.len() - 1 {
            assert(one[i] == inner[i - 7]);
        }
    }
    assert forall|i: int| 0 <= i < two.len() implies #[trigger] two[i] != '\n' by {
        if i < 9 {
            assert(two[i] == "created: "@[i]);
        } else {
            assert(two[i] == created[i - 9]);
        }
    }
    assert(rest.subrange(pos, pos + 4) =~= "\n---"@);
    assert(crate::text::occurs_at(rest, "\n---"@, pos));
    assert forall|i: int| 0 <= i < pos implies !crate::text::occurs_at(rest, "\n---"@, i) by {
        if crate::text::occurs_at(rest, "\n---"@, i) {
            let w = rest.subrange(i, i + 4);
            assert(w[0] == rest[i] && w[1] == rest[i + 1]);
            assert(rest[i] == header[i]);
            if i < one.len() {
                assert(header[i] == one[i]);
            } else if i > one.len() {
                assert(header[i] == two[i - one.len() - 1]);
            } else {
                assert(rest[i + 1] == header[i + 1]);
                assert(header[i + 1] == two[0]);
            }
        }
    }
    crate::text::lemma_find_from(rest, "\n---"@, 0);
    assert(crate::text::find_from(rest, "\n---"@, 0) == Some(pos));
    assert(rest.take(pos) =~= header);
    assert(header =~= written_header(tags, created));
    // The text.
    assert(rest.skip(pos + 4) =~= "\n"@ + body + "\n"@);
    lemma_body_back(content);
}

/// What is written as a note is read back: its tags, its date and its text. A
/// tag that could be taken for something else in the header, and a date with a
/// line feed or white space around it, are left out.
pub proof fn note_round_trip(content: Seq<char>, tags: Seq<Seq<char>>, created: Seq<char>)
    requires
        forall|i: int| 0 <= i < tags.len() ==> plain_tag(#[trigger] tags[i]),
        created.len() > 0,
        lacks(created, '\n'),
        crate::text::trim(created) == created,
    ensures
        note_parts(note_document(content, tags, created)) == (
            HeaderView { tags: tags, created: Some(created) },
            crate::text::trim(content),
        ),
{
    reveal_strlit("tags: ");
    reveal_strlit("created: ");
    reveal_strlit("\n");
    reveal_strlit("[");
    reveal_strlit("]");
    let list = tags_text(tags);
    let one = "tags: "@ + list;
    let two = "created: "@ + created;
    assert forall|i: int| 0 <= i < tags.len() implies lacks(#[trigger] tags[i], '\n') by {
        assert(plain_tag(tags[i]));
    }
    lemma_note_split(content, tags, created);
    lemma_join_lacks(tags);
    let inner = crate::text::join(tags, ", "@);
    assert forall|i: int| 0 <= i < one.len() implies #[trigger] one[i] != '\n' by {
        if i < 6 {
            assert(one[i] == "tags: "@[i]);
        } else if i > 6 && i < one.len() - 1 {
            assert(one[i] == inner[i - 7]);
        }
    }
    assert forall|i: int| 0 <= i < two.len() implies #[trigger] two[i] != '\n' by {
        if i < 9 {
            assert(two[i] == "created: "@[i]);
        } else {
            assert(two[i] == created[i - 9]);
        }
    }
    assert(one.last() == ']');
    lemma_two_lines(one, two);
    let none = HeaderView { tags: seq![], created: None };
    lemma_tags_line(none, tags);
    lemma_created_line(HeaderView { tags: tags, created: None }, created);
    let ls = seq![one, two];
    assert(ls.drop_last() =~= seq![one]);
    assert(seq![one].drop_last() =~= seq![]);
    reveal_with_fuel(crate::memory::store::header_of, 3);
    assert(crate::memory::store::header_of(ls) == (HeaderView {
        tags: tags,
        created: Some(created),
    }));
}

/// The text of a note is read back whatever its tags are, as long as none of
/// them holds a line feed.
pub proof fn body_round_trip(content: Seq<char>, tags: Seq<Seq<char>>, created: Seq<char>)
    requires
        forall|i: int| 0 <= i < tags.len() ==> lacks(#[trigger] tags[i], '\n'),
        lacks(created, '\n'),
    ensures
        note_parts(note_document(content, tags, created)).1 == crate::text::trim(content),
{
    lemma_note_split(content, tags, created);
}

/// The note in a file is among the notes in a list of files.
proof fn lemma_file_is_listed(files: Seq<NoteFileView>, k: int)
    requires
        0 <= k < files.len(),
        note_in(files[k]) is Some,
    ensures
        notes_in_files(files).contains(note_in(files[k])->0),
    decreases files.len(),
{
    let notes = notes_in_files(files);
    let less = files.drop_last();
    if k == files.len() - 1 {
        assert(notes.last() == note_in(files[k])->0);
    } else {
        assert(less[k] == files[k]);
        lemma_file_is_listed(less, k);
        let m = choose|m: int|
            0 <= m < notes_in_files(less).len() && notes_in_files(less)[m] == note_in(files[k])->0;
        assert(notes[m] == note_in(files[k])->0);
    }
}

/// The file that writing a note writes, with the time of the write.
pub open spec fn written_file(
    dir: Seq<char>,
    content: Seq<char>,
    tags: Seq<Seq<char>>,
    today: Seq<char>,
    nanos: u128,
    modified_unix: u64,
) -> NoteFileView {
    NoteFileView {
        path: crate::paths::joined(
            crate::paths::joined(dir, today),
            stem_of(content, nanos) + ".md"@,
        ),
        day: today,
        name: stem_of(content, nanos) + ".md"@,
        text: Some(note_document(content, tags, today)),
        modified_unix: modified_unix,
    }
}

/// The note that was written.
pub open spec fn written_note(
    dir: Seq<char>,
    content: Seq<char>,
    tags: Seq<Seq<char>>,
    today: Seq<char>,
    nanos: u128,
    modified_unix: u64,
) -> MemoryNoteView {
    MemoryNoteView {
        path: written_file(dir, content, tags, today, nanos, modified_unix).path,
        day: today,
        slug: stem_of(content, nanos),
        tags: tags,
        created: Some(today),
        content: crate::text::trim(content),
        modified_unix: modified_unix,
    }
}

/// The notes that a store lists, given its files.
pub open spec fn listed(files: Seq<NoteFileView>) -> Seq<MemoryNoteView> {
    crate::order::ranked::<MemoryNote>(notes_in_files(files))
}

/// The note of a file, if it has one.
spec fn notes_of(f: NoteFileView) -> Multiset<MemoryNoteView> {
    match note_in(f) {
        Some(n) => Multiset::singleton(n),
        None => Multiset::empty(),
    }
}

/// Without one file, its note is missing and no other.
proof fn lemma_without_file(files: Seq<NoteFileView>, m: int)
    requires
        0 <= m < files.len(),
    ensures
        notes_in_files(files).to_multiset() == notes_in_files(files.remove(m)).to_multiset().add(
            notes_of(files[m]),
        ),
    decreases files.len(),
{
    broadcast use vstd::seq_lib::group_to_multiset_ensures;

    let less = files.drop_last();
    if m == files.len() - 1 {
        assert(files.remove(m) =~= less);
    } else {
        lemma_without_file(less, m);
        assert(less[m] == files[m]);
        assert(files.remove(m).drop_last() =~= less.remove(m));
        assert(files.remove(m).last() == files.last());
    }
    assert(notes_in_files(files).to_multiset() =~= notes_in_files(
        files.remove(m),
    ).to_multiset().add(notes_of(files[m])));
}

/// The notes do not depend on the order of the files.
proof fn lemma_any_order(a: Seq<NoteFileView>, b: Seq<NoteFileView>)
    requires
        a.to_multiset() == b.to_multiset(),
    ensures
        notes_in_files(a).to_multiset() == notes_in_files(b).to_multiset(),
    decreases a.len(),
{
    broadcast use vstd::seq_lib::group_to_multiset_ensures;

    assert(a.len() == a.to_multiset().len());
    assert(b.len() == b.to_multiset().len());
    if a.len() > 0 {
        let n = a.len() - 1;
        let x = a[n];
        assert(a.contains(x));
        assert(a.to_multiset().count(x) > 0);
        assert(b.contains(x));
        let m = choose|m: int| 0 <= m < b.len() && b[m] == x;
        assert(a.remove(n).to_multiset() =~= b.remove(m).to_multiset());
        lemma_any_order(a.remove(n), b.remove(m));
        lemma_without_file(a, n);
        lemma_without_file(b, m);
    } else {
        assert(a =~= b);
    }
}

/// Every note has the path of a file.
proof fn lemma_note_has_file(files: Seq<NoteFileView>, i: int)
    requires
        0 <= i < notes_in_files(files).len(),
    ensures
        exists|k: int|
            0 <= k < files.len() && (#[trigger] files[k]).path == notes_in_files(files)[i].path,
    decreases files.len(),
{
    let less = files.drop_last();
    let n = files.len() - 1;
    if i < notes_in_files(less).len() {
        lemma_note_has_file(less, i);
        let k = choose|k: int|
            0 <= k < less.len() && (#[trigger] less[k]).path == notes_in_files(less)[i].path;
        assert(files[k].path == notes_in_files(files)[i].path);
    } else {
        assert(files[n].path == notes_in_files(files)[i].path);
    }
}

/// What holds one `x` has it at one place.
proof fn lemma_sole_place(s: Seq<MemoryNoteView>, x: MemoryNoteView, i: int, k: int)
    requires
        s.to_multiset().count(x) == 1,
        0 <= i < s.len(),
        0 <= k < s.len(),
        s[i] == x,
        s[k] == x,
    ensures
        i == k,
{
    broadcast use vstd::seq_lib::group_to_multiset_ensures;

    if i != k {
        let rest = s.remove(i);
        let m = if k < i {
            k
        } else {
            k - 1
        };
        assert(rest[m] == x);
        assert(rest.contains(x));
        assert(rest.to_multiset().count(x) > 0);
    }
}

/// A note that was written is listed: with its path, its day, its tags, its date
/// and its text, and once; all other notes are as before. `others` are the files
/// with other paths and `after` is what a listing finds, in any order. A tag that
/// could be taken for something else in the header is left out.
pub proof fn written_note_is_listed(
    dir: Seq<char>,
    content: Seq<char>,
    tags: Seq<Seq<char>>,
    today: Seq<char>,
    nanos: u128,
    modified_unix: u64,
    others: Seq<NoteFileView>,
    after: Seq<NoteFileView>,
)
    requires
        day_name(today),
        forall|i: int| 0 <= i < tags.len() ==> plain_tag(#[trigger] tags[i]),
        forall|i: int|
            0 <= i < others.len() ==> (#[trigger] others[i]).path != written_file(
                dir,
                content,
                tags,
                today,
                nanos,
                modified_unix,
            ).path,
        after.to_multiset() == others.to_multiset().insert(
            written_file(dir, content, tags, today, nanos, modified_unix),
        ),
    ensures
        ({
            let note = written_note(dir, content, tags, today, nanos, modified_unix);
            &&& exists|k: int|
                0 <= k < listed(after).len() && #[trigger] listed(after)[k] == note && forall|i: int|
                    0 <= i < listed(after).len() && i != k ==> (#[trigger] listed(after)[i]).path
                        != note.path
            &&& listed(after).to_multiset() == listed(others).to_multiset().insert(note)
        }),
{
    broadcast use vstd::seq_lib::group_to_multiset_ensures;

    let f = written_file(dir, content, tags, today, nanos, modified_unix);
    let note = written_note(dir, content, tags, today, nanos, modified_unix);
    reveal_strlit(".md");
    crate::memory::store::note_file_name_is_plain(content, nanos);
    assert(f.name.subrange(f.name.len() - 3, f.name.len() as int) =~= ".md"@);
    assert(f.name.take(f.name.len() - 3) =~= stem_of(content, nanos));
    assert(lacks(today, '\n'));
    assert(!crate::text::is_space(today[0]) && !crate::text::is_space(today.last()));
    crate::text::lemma_trim_solid(today);
    note_round_trip(content, tags, today);
    assert(note_in(f) == Some(note));
    let all = others.push(f);
    assert(all.drop_last() =~= others);
    assert(notes_in_files(all) == notes_in_files(others).push(note));
    assert(all.to_multiset() =~= after.to_multiset());
    lemma_any_order(after, all);
    crate::order::ranked_is_sorted::<MemoryNote>(notes_in_files(after));
    crate::order::ranked_is_sorted::<MemoryNote>(notes_in_files(others));
    let l = listed(after);
    let rest = notes_in_files(others);
    assert(l.to_multiset() =~= rest.to_multiset().insert(note));
    assert forall|n: MemoryNoteView| rest.to_multiset().count(n) > 0 implies n.path
        != note.path by {
        assert(rest.contains(n));
        let i = choose|i: int| 0 <= i < rest.len() && rest[i] == n;
        lemma_note_has_file(others, i);
    }
    assert(l.to_multiset().count(note) == 1);
    assert(l.contains(note));
    let k = choose|k: int| 0 <= k < l.len() && l[k] == note;
    assert forall|i: int| 0 <= i < l.len() && i != k implies (#[trigger] l[i]).path
        != note.path by {
        if l[i].path == note.path {
            assert(l.contains(l[i]));
            assert(l.to_multiset().count(l[i]) > 0);
            assert(l[i] == note) by {
                if l[i] != note {
                    assert(rest.to_multiset().count(l[i]) > 0);
                }
            }
            lemma_sole_place(l, note, i, k);
        }
    }
    assert(listed(after)[k] == note);
}

/// A note that was written is found again by its text: once its file is listed,
/// the store contains its body, so that it is not written twice.
pub proof fn written_note_is_contained(
    files: Seq<NoteFileView>,
    k: int,
    content: Seq<char>,
    tags: Seq<Seq<char>>,
    today: Seq<char>,
    nanos: u128,
)
    requires
        0 <= k < files.len(),
        files[k].day == today,
        files[k].name == stem_of(content, nanos) + ".md"@,
        files[k].text == Some(note_document(content, tags, today)),
        day_name(today),
        forall|i: int| 0 <= i < tags.len() ==> lacks(#[trigger] tags[i], '\n'),
    ensures
        has_body(crate::order::ranked::<MemoryNote>(notes_in_files(files)), content),
{
    reveal_strlit(".md");
    let name = files[k].name;
    crate::memory::store::note_file_name_is_plain(content, nanos);
    assert(name.subrange(name.len() - 3, name.len() as int) =~= ".md"@);
    assert(lacks(today, '\n'));
    body_round_trip(content, tags, today);
    let note = note_in(files[k])->0;
    lemma_trim_ends(content);
    crate::text::lemma_trim_solid(crate::text::trim(content));
    lemma_file_is_listed(files, k);
    crate::order::ranked_keeps::<MemoryNote>(notes_in_files(files), note);
}

} // verus!

use agent_core::context::CHARS_PER_TOKEN;
use agent_core::memory::inject::memory_block_with_budget;
use agent_core::memory::query_terms;
use agent_core::memory::store::{
    file_stem, is_day_dir, local_date, local_date_from_unix, local_minutes_from_unix, parse_note,
    parse_tags, slug_of_file, utc_date_from_unix, LocalTm, NoteFile,
};
use agent_core::{memory_block, MemoryNote, MemoryStore};

fn file(dir: &str, name: &str, text: &str, modified_unix: u64) -> NoteFile {
    NoteFile {
        path: format!("data/memory/{dir}/{name}"),
        day: dir.to_string(),
        name: name.to_string(),
        text: Some(text.to_string()),
        modified_unix,
    }
}

fn store() -> MemoryStore {
    MemoryStore::new("data/memory")
}

/// The notes of a store after writing each of `notes`.
fn written(notes: &[(&str, &[&str])]) -> Vec<MemoryNote> {
    let mut files = Vec::new();
    let mut second = 100;
    for (content, tags) in notes {
        let tags: Vec<String> = tags.iter().map(|t| t.to_string()).collect();
        let (path, text) = store().write(content, &tags, "2026-09-10", second as u128);
        let name = path.rsplit('/').next().unwrap().to_string();
        files.push(NoteFile {
            path: path.clone(),
            day: "2026-09-10".to_string(),
            name,
            text: Some(text),
            modified_unix: second,
        });
        second += 1;
    }
    store().list(&files)
}

#[test]
fn empty_store_injects_nothing() {
    assert!(memory_block(&vec![], "anything").is_none());
}

#[test]
fn matching_notes_are_injected_with_tags_and_day() {
    let notes = written(&[
        ("I keep a kettle by the window", &["home"]),
        ("Rust ownership notes", &["rust"]),
    ]);
    let block = memory_block(&notes, "tell me about rust").unwrap();
    assert!(block.contains("Rust ownership notes"));
    assert!(block.contains("(rust)"));
    assert!(!block.contains("kettle"));
    assert!(block.contains("2026-09-10"));
}

#[test]
fn unmatched_query_falls_back_to_the_newest_notes() {
    let notes = written(&[("first", &[]), ("second", &[]), ("third", &[])]);
    let block = memory_block(&notes, "zzz qqq").unwrap();
    assert!(block.contains("third"), "newest note is present");
}

#[test]
fn the_block_respects_its_budget() {
    let notes = written(&[("x".repeat(4000).as_str(), &[])]);
    // Ten tokens (~40 chars) cannot hold the 600-char note; it is cut.
    let block = memory_block_with_budget(&notes, "x", 10).unwrap();
    assert!(block.chars().count() <= 10 * CHARS_PER_TOKEN as usize);
}

#[test]
fn query_terms_ignore_short_words_and_duplicates() {
    assert_eq!(
        query_terms("The Rust rust ox", 3),
        vec!["the".to_string(), "rust".to_string()]
    );
}

#[test]
fn query_terms_are_lowered_as_text() {
    assert_eq!(query_terms("ÄPFEL-Mus, Straße", 3), vec!["äpfel", "mus", "straße"]);
}

#[test]
fn write_creates_a_day_file_with_frontmatter() {
    let tags = vec!["rust".to_string(), "axum".to_string()];
    let (path, text) = store().write("Rust notes", &tags, "2026-09-11", 255);
    assert!(text.starts_with("---\n"));
    assert!(text.contains("tags: [rust, axum]"));
    assert!(text.contains("Rust notes"));
    assert!(path.starts_with(&store().day_dir("2026-09-11")));
    assert_eq!(path, "data/memory/2026-09-11/rust-notes-ff.md");
    assert_eq!(
        text,
        "---\ntags: [rust, axum]\ncreated: 2026-09-11\n---\nRust notes\n"
    );
}

#[test]
fn written_notes_round_trip_through_list() {
    let notes = written(&[("first note", &["alpha"]), ("second note", &["beta"])]);
    assert_eq!(notes.len(), 2);
    let first = notes
        .iter()
        .find(|n| n.content.contains("first note"))
        .unwrap();
    assert_eq!(first.tags, vec!["alpha".to_string()]);
    assert_eq!(first.day, "2026-09-10");
    assert!(first.created.is_some());
    // The newest note comes first.
    assert_eq!(notes[0].content, "second note");
}

#[test]
fn list_tolerates_hand_edited_and_foreign_files() {
    let files = vec![
        // No frontmatter at all: the whole file is the body.
        file("2026-09-10", "plain.md", "just a body\n", 1),
        // Broken frontmatter: never panics, body is best-effort.
        file("2026-09-10", "broken.md", "---\ntags: [oops\nno closing\n", 2),
        // Not markdown: ignored.
        file("2026-09-10", "ignore.txt", "not a note", 3),
        // Not a day directory: ignored.
        file("scratch", "x.md", "hidden", 4),
    ];
    let notes = store().list(&files);
    assert_eq!(notes.len(), 2);
    let plain = notes.iter().find(|n| n.slug == "plain").unwrap();
    assert_eq!(plain.content, "just a body");
    assert!(plain.tags.is_empty());
    assert!(notes.iter().all(|n| n.day == "2026-09-10"));
}

#[test]
fn search_matches_body_and_tags_and_ranks_tags_higher() {
    let files = vec![
        file(
            "2026-09-10",
            "rust.md",
            "---\ntags: [rust]\ncreated: 2026-09-10\n---\nnotes about frogs\n",
            1,
        ),
        file(
            "2026-09-10",
            "frog.md",
            "---\ntags: [animals]\ncreated: 2026-09-10\n---\nfrogs are amphibians\n",
            2,
        ),
        file(
            "2026-09-10",
            "other.md",
            "---\ntags: []\ncreated: 2026-09-10\n---\nunrelated\n",
            3,
        ),
    ];
    let store = store();
    let notes = store.list(&files);
    let hits = store.search(&notes, "frogs", 5);
    assert_eq!(hits.len(), 2, "only notes mentioning frogs match");
    // The body-only match is a frog note; a tag hit would outrank it.
    let tag_hits = store.search(&notes, "rust", 5);
    assert_eq!(tag_hits.len(), 1);
    assert_eq!(tag_hits[0].slug, "rust");

    assert_eq!(store.search(&notes, "", 2).len(), 2);
    assert!(store.search(&notes, "nothing-here", 5).is_empty());
}

#[test]
fn missing_directory_lists_as_empty() {
    let store = store();
    let notes = store.list(&vec![]);
    assert!(notes.is_empty());
    assert!(store.search(&notes, "anything", 5).is_empty());
}

#[test]
fn local_date_is_an_iso_day_and_parses_back() {
    let date = local_date(None);
    assert!(is_day_dir(&date), "unexpected local date {date:?}");
    // The fallback where the local time is not known.
    assert_eq!(utc_date_from_unix(0), "1970-01-01");
    assert_eq!(utc_date_from_unix(-5), "1970-01-01");
}

#[test]
fn local_times_come_from_the_local_clock() {
    let tm = LocalTm { year: 2026, month: 9, day: 1, hour: 21, minute: 5 };
    assert_eq!(local_date_from_unix(0, Some(tm)), "2026-09-01");
    assert_eq!(local_minutes_from_unix(0, Some(tm)), 21 * 60 + 5);
    assert_eq!(local_date_from_unix(86_400, None), "1970-01-02");
    assert_eq!(local_minutes_from_unix(3_660, None), 61);
    assert_eq!(local_minutes_from_unix(-60, None), 1439);
}

#[test]
fn a_body_is_found_whatever_stands_around_it() {
    let notes = written(&[("  a fact \n", &[])]);
    assert!(store().contains_body(&notes, "a fact"));
    assert!(store().contains_body(&notes, "\na fact  "));
    assert!(!store().contains_body(&notes, "a fac"));
}

#[test]
fn names_of_notes_are_plain() {
    assert_eq!(file_stem("Hello, World! 42", 16), "hello-world-42-10");
    assert_eq!(file_stem("***", 1), "note-1");
    assert_eq!(slug_of_file("a-1.md").as_deref(), Some("a-1"));
    assert_eq!(slug_of_file("a.txt"), None);
    assert!(is_day_dir("2026-09-10"));
    assert!(!is_day_dir("2026-9-10"));
    assert!(!is_day_dir("scratch"));
}

#[test]
fn tags_are_read_in_both_forms() {
    assert_eq!(parse_tags("[a, 'b', \"c\", ]"), vec!["a", "b", "c"]);
    assert_eq!(parse_tags("a, b"), vec!["a", "b"]);
    let note = parse_note("p", "2026-09-10", "s", "---\ntags: x\n---\nbody\n", 7);
    assert_eq!(note.tags, vec!["x"]);
    assert_eq!(note.content, "body");
    assert_eq!(note.modified_unix, 7);
}

#[test]
fn the_text_of_a_note_survives_any_tags() {
    let tags: &[&str] = &["a, b", "", "]", " \"q\" ", "---", "created: x"];
    let notes = written(&[("a fact\n---\nwith a rule", tags)]);
    assert_eq!(notes[0].content, "a fact\n---\nwith a rule");
    assert!(store().contains_body(&notes, "a fact\n---\nwith a rule"));
}

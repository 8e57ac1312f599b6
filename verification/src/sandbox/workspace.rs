//! The files of the workspace: which names are taken, which paths are served,
//! and what kind of file an extension stands for.

use vstd::prelude::*;

use crate::error::{ApiError, ApiErrorKind, ApiErrorView};
use crate::order::Ranked;
use crate::paths::{extension, join_path};
use crate::text::{
    byte_count, chars_of, control, ends_with, less, lower, quote, same, split_on, starts_with,
};

verus! {

/// The longest file name, in bytes.
pub const MAX_FILE_NAME_BYTES: usize = 255;

/// How many files a snapshot holds.
pub const MAX_SCAN_ENTRIES: usize = 2048;

/// Whether one of the characters is a control character.
pub open spec fn has_control(s: Seq<char>) -> bool {
    exists|i: int| 0 <= i < s.len() && crate::text::is_control_char(#[trigger] s[i])
}

/// What is wrong with a file name.
pub open spec fn name_fault(name: Seq<char>) -> Option<Seq<char>> {
    if name.len() == 0 {
        Some("a file name is required"@)
    } else if crate::text::byte_len(name) > MAX_FILE_NAME_BYTES {
        Some("file name is too long (max 255 bytes)"@)
    } else if name[0] == '.' {
        Some("file names may not start with a dot (internal names are reserved)"@)
    } else if name.contains('/') || name.contains('\\') {
        Some("file names may not contain path separators"@)
    } else if has_control(name) {
        Some("file names may not contain control characters"@)
    } else {
        None
    }
}

/// Whether a character stands in a text.
fn has_char(v: &Vec<char>, c: char) -> (r: bool)
    ensures
        r == v@.contains(c),
{
    let mut i: usize = 0;
    while i < v.len()
        invariant
            i <= v@.len(),
            forall|k: int| 0 <= k < i ==> v@[k] != c,
        decreases v.len() - i,
    {
        if v[i] == c {
            return true;
        }
        i = i + 1;
    }
    false
}

/// Whether one of the characters is a control character.
fn any_control(v: &Vec<char>) -> (r: bool)
    ensures
        r == has_control(v@),
{
    let mut i: usize = 0;
    while i < v.len()
        invariant
            i <= v@.len(),
            forall|k: int| 0 <= k < i ==> !crate::text::is_control_char(#[trigger] v@[k]),
        decreases v.len() - i,
    {
        if control(v[i]) {
            return true;
        }
        i = i + 1;
    }
    false
}

/// Checks the name of an uploaded file: one ordinary part of a path, without
/// separators, not hidden, without control characters.
pub fn safe_file_name(name: &str) -> (r: Result<String, ApiError>)
    ensures
        match name_fault(name@) {
            None => r matches Ok(s) && s@ == name@,
            Some(m) => r matches Err(e) && e@ == crate::error::failure(ApiErrorKind::Config, m),
        },
{
    let v = chars_of(name);
    if v.len() == 0 {
        return Err(ApiError::config("a file name is required"));
    }
    if byte_count(name) > MAX_FILE_NAME_BYTES {
        return Err(ApiError::config("file name is too long (max 255 bytes)"));
    }
    if v[0] == '.' {
        return Err(
            ApiError::config("file names may not start with a dot (internal names are reserved)"),
        );
    }
    if has_char(&v, '/') || has_char(&v, '\\') {
        return Err(ApiError::config("file names may not contain path separators"));
    }
    if any_control(&v) {
        return Err(ApiError::config("file names may not contain control characters"));
    }
    Ok(name.to_owned())
}

/// An accepted name is one ordinary part of a path: it cannot leave the
/// directory it is put into, and it is never internal by its first character.
pub proof fn safe_name_is_one_part(name: Seq<char>)
    requires
        name_fault(name) is None,
    ensures
        name.len() > 0,
        name[0] != '.',
        !name.contains('/'),
        !name.contains('\\'),
        name != "."@,
        name != ".."@,
{
    reveal_strlit(".");
    reveal_strlit("..");
}

/// Whether a part of a path is not ordinary.
pub open spec fn unsafe_part(part: Seq<char>) -> bool {
    ||| part.len() == 0
    ||| part == "."@
    ||| part == ".."@
    ||| part.contains('\\')
    ||| has_control(part)
}

/// Whether one of the parts is not ordinary.
pub open spec fn any_unsafe(parts: Seq<Seq<char>>) -> bool {
    exists|i: int| 0 <= i < parts.len() && unsafe_part(#[trigger] parts[i])
}

/// The path of parts below a directory.
pub open spec fn below(root: Seq<char>, parts: Seq<Seq<char>>) -> Seq<char>
    decreases parts.len(),
{
    if parts.len() == 0 {
        root
    } else {
        crate::paths::joined(below(root, parts.drop_last()), parts.last())
    }
}

/// Whether a relative path may be looked up: every part of it is ordinary.
pub open spec fn ordinary(rel: Seq<char>) -> bool {
    rel.len() > 0 && rel[0] != '/' && !any_unsafe(crate::text::split(rel, '/'))
}

/// A path in the workspace that may be looked up.
#[derive(Debug)]
pub struct Candidate {
    root: String,
    rel: String,
    path: String,
}

/// The content of a [`Candidate`].
#[verifier::ext_equal]
pub struct CandidateView {
    /// What the workspace resolves to.
    pub root: Seq<char>,
    /// The path that was asked for.
    pub rel: Seq<char>,
    /// The path on disk.
    pub path: Seq<char>,
}

impl View for Candidate {
    type V = CandidateView;

    closed spec fn view(&self) -> CandidateView {
        CandidateView { root: self.root@, rel: self.rel@, path: self.path@ }
    }
}

impl Candidate {
    /// Only ordinary parts lead below the workspace.
    #[verifier::type_invariant]
    spec fn inv(self) -> bool {
        &&& ordinary(self.rel@)
        &&& self.path@ == below(self.root@, crate::text::split(self.rel@, '/'))
    }

    /// The path on disk.
    pub fn path(&self) -> (r: &str)
        ensures
            r@ == self@.path,
            ordinary(self@.rel),
            r@ == below(self@.root, crate::text::split(self@.rel, '/')),
    {
        proof {
            use_type_invariant(self);
        }
        self.path.as_str()
    }
}

/// The path in the workspace that a relative path stands for, or why it is not
/// served. `root` is what the workspace resolves to, or why it does not.
pub open spec fn candidate_for(
    shown: Seq<char>,
    root: Result<Seq<char>, Seq<char>>,
    rel: Seq<char>,
) -> Result<CandidateView, ApiErrorView> {
    let parts = crate::text::split(rel, '/');
    if rel.len() == 0 {
        Err(crate::error::failure(ApiErrorKind::Config, "a file path is required"@))
    } else if rel[0] == '/' {
        Err(crate::error::failure(ApiErrorKind::Forbidden, "absolute paths are not allowed"@))
    } else {
        match root {
            Err(cause) => Err(
                crate::error::failure(
                    ApiErrorKind::Internal,
                    "workspace "@ + shown + " is not usable: "@ + cause,
                ),
            ),
            Ok(r) => if any_unsafe(parts) {
                Err(
                    crate::error::failure(
                        ApiErrorKind::Forbidden,
                        "unsafe path component in "@ + crate::text::quoted(rel),
                    ),
                )
            } else {
                Ok(CandidateView { root: r, rel: rel, path: below(r, parts) })
            },
        }
    }
}

/// The content of a text or a cause.
pub open spec fn text_or_cause(r: Result<String, String>) -> Result<Seq<char>, Seq<char>> {
    match r {
        Ok(s) => Ok(s@),
        Err(e) => Err(e@),
    }
}

/// The content of a path or an error.
pub open spec fn path_view(r: Result<String, ApiError>) -> Result<Seq<char>, ApiErrorView> {
    match r {
        Ok(s) => Ok(s@),
        Err(e) => Err(e@),
    }
}

/// The content of a candidate or an error.
pub open spec fn candidate_view(r: Result<Candidate, ApiError>) -> Result<
    CandidateView,
    ApiErrorView,
> {
    match r {
        Ok(c) => Ok(c@),
        Err(e) => Err(e@),
    }
}

/// The path in the workspace that a relative path stands for: every part of it
/// must be ordinary.
pub fn candidate_path(shown_root: &str, root: &Result<String, String>, rel: &str) -> (r: Result<
    Candidate,
    ApiError,
>)
    ensures
        candidate_view(r) == candidate_for(shown_root@, text_or_cause(*root), rel@),
        r is Ok ==> ordinary(rel@),
{
    let v = chars_of(rel);
    if v.len() == 0 {
        return Err(ApiError::config("a file path is required"));
    }
    if v[0] == '/' {
        return Err(ApiError::new(ApiErrorKind::Forbidden, "absolute paths are not allowed"));
    }
    let start: String = match root {
        Ok(r) => r.clone(),
        Err(cause) => {
            let mut message = "workspace ".to_owned();
            message.append(shown_root);
            message.append(" is not usable: ");
            message.append(cause.as_str());
            return Err(ApiError::internal(message.as_str()));
        },
    };
    let parts = split_on(rel, '/');
    let ghost all = crate::text::texts(parts@);
    let mut candidate = start.clone();
    let mut i: usize = 0;
    assert(all.take(0) =~= seq![]);
    while i < parts.len()
        invariant
            i <= parts.len(),
            all == crate::text::texts(parts@),
            all == crate::text::split(rel@, '/'),
            rel@.len() > 0,
            rel@[0] != '/',
            text_or_cause(*root) == Ok::<Seq<char>, Seq<char>>(start@),
            candidate@ == below(start@, all.take(i as int)),
            forall|k: int| 0 <= k < i ==> !unsafe_part(#[trigger] all[k]),
        decreases parts.len() - i,
    {
        assert(all[i as int] == parts@[i as int]@);
        assert(all.take(i + 1).drop_last() =~= all.take(i as int));
        let part = parts[i].as_str();
        let chars = chars_of(part);
        if chars.len() == 0 || same(part, ".") || same(part, "..") || has_char(&chars, '\\')
            || any_control(&chars) {
            assert(unsafe_part(all[i as int]));
            let mut message = "unsafe path component in ".to_owned();
            message.append(quote(rel).as_str());
            return Err(ApiError::new(ApiErrorKind::Forbidden, message.as_str()));
        }
        candidate = join_path(candidate.as_str(), part);
        i = i + 1;
    }
    assert(all.take(i as int) =~= all);
    Ok(Candidate { root: start, rel: rel.to_owned(), path: candidate })
}

/// What resolving a path on disk gives.
#[derive(Debug)]
pub enum Resolved {
    /// The path without links.
    Path(String),
    /// There is nothing.
    Missing,
    /// It cannot be told.
    Failed(String),
}

/// The parts of a path that count.
pub open spec fn path_parts(pieces: Seq<Seq<char>>) -> Seq<Seq<char>>
    decreases pieces.len(),
{
    if pieces.len() == 0 {
        seq![]
    } else if pieces.last().len() == 0 || pieces.last() == "."@ {
        path_parts(pieces.drop_last())
    } else {
        path_parts(pieces.drop_last()).push(pieces.last())
    }
}

/// Whether an absolute path lies inside a directory, or is that directory.
pub open spec fn inside(root: Seq<char>, path: Seq<char>) -> bool {
    let a = path_parts(crate::text::split(root, '/'));
    let b = path_parts(crate::text::split(path, '/'));
    a.len() <= b.len() && b.take(a.len() as int) == a
}

/// The parts of a path that count.
fn parts_of(path: &str) -> (r: Vec<String>)
    ensures
        crate::text::texts(r@) == path_parts(crate::text::split(path@, '/')),
{
    let pieces = split_on(path, '/');
    let ghost all = crate::text::texts(pieces@);
    let mut out: Vec<String> = Vec::new();
    let mut i: usize = 0;
    assert(all.take(0) =~= seq![]);
    assert(crate::text::texts(out@) =~= seq![]);
    while i < pieces.len()
        invariant
            i <= pieces.len(),
            all == crate::text::texts(pieces@),
            crate::text::texts(out@) == path_parts(all.take(i as int)),
        decreases pieces.len() - i,
    {
        assert(all.take(i + 1).drop_last() =~= all.take(i as int));
        assert(all.take(i + 1).last() == pieces@[i as int]@);
        let ghost before = crate::text::texts(out@);
        if !crate::text::empty(pieces[i].as_str()) && !same(pieces[i].as_str(), ".") {
            out.push(pieces[i].clone());
            assert(crate::text::texts(out@) =~= before.push(all[i as int]));
        }
        i = i + 1;
    }
    assert(all.take(i as int) =~= all);
    out
}

/// Whether an absolute path lies inside a directory, or is that directory.
pub fn is_inside(root: &str, path: &str) -> (r: bool)
    ensures
        r == inside(root@, path@),
{
    let a = parts_of(root);
    let b = parts_of(path);
    let ghost x = crate::text::texts(a@);
    let ghost y = crate::text::texts(b@);
    if a.len() > b.len() {
        return false;
    }
    let mut i: usize = 0;
    while i < a.len()
        invariant
            i <= a.len() <= b.len(),
            x == crate::text::texts(a@),
            y == crate::text::texts(b@),
            x == path_parts(crate::text::split(root@, '/')),
            y == path_parts(crate::text::split(path@, '/')),
            forall|k: int| 0 <= k < i ==> x[k] == y[k],
        decreases a.len() - i,
    {
        assert(x[i as int] == a@[i as int]@);
        assert(y[i as int] == b@[i as int]@);
        if !same(a[i].as_str(), b[i].as_str()) {
            assert(y.take(x.len() as int)[i as int] == y[i as int]);
            return false;
        }
        i = i + 1;
    }
    assert(y.take(x.len() as int) =~= x);
    true
}

/// The file that is served, given what the candidate resolves to.
pub open spec fn served(root: Seq<char>, rel: Seq<char>, resolved: Resolved) -> Result<
    Seq<char>,
    ApiErrorView,
> {
    match resolved {
        Resolved::Missing => Err(
            crate::error::failure(ApiErrorKind::NotFound, "no such file: "@ + rel),
        ),
        Resolved::Failed(cause) => Err(
            crate::error::failure(
                ApiErrorKind::NotFound,
                "cannot read "@ + rel + ": "@ + cause@,
            ),
        ),
        Resolved::Path(p) => if inside(root, p@) {
            Ok(p@)
        } else {
            Err(
                crate::error::failure(
                    ApiErrorKind::Forbidden,
                    "path escapes the workspace: "@ + rel,
                ),
            )
        },
    }
}

/// The file that is served, given what a candidate resolves to: every part of
/// the path that was asked for is ordinary, and the file must stay inside the
/// workspace, so that neither a parent link nor another link escapes.
pub fn resolve_workspace_file(candidate: &Candidate, resolved: Resolved) -> (r: Result<
    String,
    ApiError,
>)
    ensures
        path_view(r) == served(candidate@.root, candidate@.rel, resolved),
        r matches Ok(p) ==> ordinary(candidate@.rel) && inside(candidate@.root, p@),
{
    proof {
        use_type_invariant(candidate);
    }
    let root = candidate.root.as_str();
    let rel = candidate.rel.as_str();
    match resolved {
        Resolved::Missing => {
            let mut message = "no such file: ".to_owned();
            message.append(rel);
            Err(ApiError::new(ApiErrorKind::NotFound, message.as_str()))
        },
        Resolved::Failed(cause) => {
            let mut message = "cannot read ".to_owned();
            message.append(rel);
            message.append(": ");
            message.append(cause.as_str());
            Err(ApiError::new(ApiErrorKind::NotFound, message.as_str()))
        },
        Resolved::Path(p) => {
            if is_inside(root, p.as_str()) {
                Ok(p)
            } else {
                let mut message = "path escapes the workspace: ".to_owned();
                message.append(rel);
                Err(ApiError::new(ApiErrorKind::Forbidden, message.as_str()))
            }
        },
    }
}

/// No parent link gets through: a relative path with `..` among its parts has
/// no candidate.
pub proof fn parent_links_are_refused(
    shown: Seq<char>,
    root: Result<Seq<char>, Seq<char>>,
    rel: Seq<char>,
    i: int,
)
    requires
        0 <= i < crate::text::split(rel, '/').len(),
        crate::text::split(rel, '/')[i] == ".."@,
    ensures
        candidate_for(shown, root, rel) is Err,
{
    assert(unsafe_part(crate::text::split(rel, '/')[i]));
}

/// The kind of file that an extension in lower case stands for.
pub open spec fn mime_of(ext: Seq<char>) -> Option<Seq<char>> {
    if ext == "png"@ {
        Some("image/png"@)
    } else if ext == "jpg"@ || ext == "jpeg"@ {
        Some("image/jpeg"@)
    } else if ext == "gif"@ {
        Some("image/gif"@)
    } else if ext == "webp"@ {
        Some("image/webp"@)
    } else if ext == "svg"@ {
        Some("image/svg+xml"@)
    } else if ext == "pdf"@ {
        Some("application/pdf"@)
    } else if ext == "csv"@ {
        Some("text/csv"@)
    } else if ext == "json"@ {
        Some("application/json"@)
    } else if ext == "txt"@ || ext == "md"@ || ext == "log"@ {
        Some("text/plain"@)
    } else if ext == "html"@ || ext == "htm"@ {
        Some("text/html"@)
    } else {
        None
    }
}

/// The kind of file that a path stands for.
pub open spec fn hint_for(path: Seq<char>) -> Option<Seq<char>> {
    match crate::paths::extension_in(path) {
        Some(ext) => mime_of(crate::text::ascii_lower(ext)),
        None => None,
    }
}

/// The text of an optional string literal.
pub open spec fn opt_static(o: Option<&'static str>) -> Option<Seq<char>> {
    match o {
        Some(s) => Some(s@),
        None => None,
    }
}

/// The kind of file that a path stands for by its extension.
pub fn mime_hint(path: &str) -> (r: Option<&'static str>)
    ensures
        opt_static(r) == hint_for(path@),
{
    let ext: String = match extension(path) {
        Some(ext) => lower(ext.as_str()),
        None => {
            return None;
        },
    };
    let e = ext.as_str();
    if same(e, "png") {
        Some("image/png")
    } else if same(e, "jpg") || same(e, "jpeg") {
        Some("image/jpeg")
    } else if same(e, "gif") {
        Some("image/gif")
    } else if same(e, "webp") {
        Some("image/webp")
    } else if same(e, "svg") {
        Some("image/svg+xml")
    } else if same(e, "pdf") {
        Some("application/pdf")
    } else if same(e, "csv") {
        Some("text/csv")
    } else if same(e, "json") {
        Some("application/json")
    } else if same(e, "txt") || same(e, "md") || same(e, "log") {
        Some("text/plain")
    } else if same(e, "html") || same(e, "htm") {
        Some("text/html")
    } else {
        None
    }
}

/// Whether a kind of file may be shown in place.
pub open spec fn shown_inline(mime: Seq<char>) -> bool {
    mime == "image/png"@ || mime == "image/jpeg"@ || mime == "image/gif"@ || mime == "image/webp"@
}

/// The kind of image that may be shown in place. SVG is not: it can carry
/// scripts.
pub fn inline_mime(path: &str) -> (r: Option<&'static str>)
    ensures
        opt_static(r) == match hint_for(path@) {
            Some(m) => if shown_inline(m) {
                Some(m)
            } else {
                None
            },
            None => None,
        },
{
    match mime_hint(path) {
        Some(m) => {
            if same(m, "image/png") || same(m, "image/jpeg") || same(m, "image/gif") || same(
                m,
                "image/webp",
            ) {
                Some(m)
            } else {
                None
            }
        },
        None => None,
    }
}

/// Scripts never run in place: an SVG image is never shown inline.
pub proof fn svg_is_never_inline()
    ensures
        !shown_inline("image/svg+xml"@),
{
    reveal_strlit("image/svg+xml");
    reveal_strlit("image/png");
    reveal_strlit("image/jpeg");
    reveal_strlit("image/gif");
    reveal_strlit("image/webp");
    assert("image/svg+xml"@.len() == 13);
    assert("image/png"@.len() == 9);
    assert("image/jpeg"@.len() == 10);
    assert("image/gif"@.len() == 9);
    assert("image/webp"@.len() == 10);
}

/// Whether a name is none of the user's: hidden, or a cache of bytecode.
pub open spec fn internal(name: Seq<char>) -> bool {
    crate::text::begins(name, "."@) || name == "__pycache__"@ || crate::text::ends(name, ".pyc"@)
}

/// Whether a name is none of the user's: hidden, or a cache of bytecode.
pub fn is_internal_name(name: &str) -> (r: bool)
    ensures
        r == internal(name@),
{
    starts_with(name, ".") || same(name, "__pycache__") || ends_with(name, ".pyc")
}

/// One file of a snapshot.
#[derive(Debug, PartialEq, Eq)]
pub struct FileStamp {
    /// The path inside the workspace.
    pub path: String,
    pub size: u64,
    /// The time of the last change in nanoseconds since the epoch.
    pub modified: Option<i128>,
}

/// The content of a [`FileStamp`].
#[verifier::ext_equal]
pub struct FileStampView {
    pub path: Seq<char>,
    pub size: u64,
    pub modified: Option<i128>,
}

impl View for FileStamp {
    type V = FileStampView;

    open spec fn view(&self) -> FileStampView {
        FileStampView { path: self.path@, size: self.size, modified: self.modified }
    }
}

impl Ranked for FileStamp {
    open spec fn before(a: FileStampView, b: FileStampView) -> bool {
        crate::text::lex_lt(a.path, b.path)
    }

    fn comes_before(&self, other: &Self) -> (r: bool) {
        less(self.path.as_str(), other.path.as_str())
    }

    proof fn asymmetric(a: FileStampView, b: FileStampView) {
        if crate::text::lex_lt(b.path, a.path) {
            crate::text::lemma_lex_transitive(a.path, b.path, a.path);
            crate::text::lemma_lex_irreflexive(a.path);
        }
    }

    proof fn transitive(a: FileStampView, b: FileStampView, c: FileStampView) {
        crate::text::lemma_lex_total(a.path, b.path);
        crate::text::lemma_lex_total(b.path, c.path);
        if crate::text::lex_lt(c.path, a.path) {
            if crate::text::lex_lt(a.path, b.path) {
                crate::text::lemma_lex_transitive(c.path, a.path, b.path);
            }
        }
    }
}

/// What an entry of a directory is.
#[derive(Debug, Clone, Copy, PartialEq, Eq, Structural)]
pub enum EntryKind {
    Directory,
    File,
    /// A link, wherever it leads.
    Link,
    /// A device or the like.
    Other,
}

/// What is done with an entry.
#[derive(Debug, Clone, Copy, PartialEq, Eq, Structural)]
pub enum Visit {
    /// Walk the directory.
    Descend,
    /// Go on with the next entry.
    Next,
    /// The scan is full.
    Stop,
}

/// A walk through the workspace. Links are reported, not followed.
#[derive(Debug)]
pub struct Scan {
    files: Vec<FileStamp>,
}

impl View for Scan {
    type V = Seq<FileStampView>;

    closed spec fn view(&self) -> Seq<FileStampView> {
        crate::fields::views_of(self.files@)
    }
}

/// What is done with an entry, and the files after it.
pub open spec fn visited(
    files: Seq<FileStampView>,
    name: Seq<char>,
    kind: EntryKind,
    stamp: FileStampView,
) -> (Visit, Seq<FileStampView>) {
    if files.len() >= MAX_SCAN_ENTRIES {
        (Visit::Stop, files)
    } else if internal(name) {
        (Visit::Next, files)
    } else {
        match kind {
            EntryKind::Directory => (Visit::Descend, files),
            EntryKind::File => (Visit::Next, files.push(stamp)),
            EntryKind::Link => (Visit::Next, files.push(stamp)),
            EntryKind::Other => (Visit::Next, files),
        }
    }
}

impl Scan {
    /// Nothing was found yet.
    pub fn new() -> (r: Scan)
        ensures
            r@ == Seq::<FileStampView>::empty(),
    {
        let r = Scan { files: Vec::new() };
        assert(r@ =~= Seq::<FileStampView>::empty());
        r
    }

    /// Whether the scan takes no more files.
    pub fn is_full(&self) -> (r: bool)
        ensures
            r == (self@.len() >= MAX_SCAN_ENTRIES),
    {
        self.files.len() >= MAX_SCAN_ENTRIES
    }

    /// Looks at an entry with a name.
    pub fn visit(&mut self, name: &str, kind: EntryKind, stamp: FileStamp) -> (r: Visit)
        ensures
            (r, final(self)@) == visited(old(self)@, name@, kind, stamp@),
    {
        if self.is_full() {
            return Visit::Stop;
        }
        if is_internal_name(name) {
            return Visit::Next;
        }
        match kind {
            EntryKind::Directory => Visit::Descend,
            EntryKind::File | EntryKind::Link => {
                let ghost before = self@;
                self.files.push(stamp);
                assert(self@ =~= before.push(stamp@));
                Visit::Next
            },
            EntryKind::Other => Visit::Next,
        }
    }

    /// The files that were found, in the order of their paths.
    pub fn finish(self) -> (r: Vec<FileStamp>)
        ensures
            crate::fields::views_of(r@) == crate::order::ranked::<FileStamp>(self@),
    {
        crate::order::sort(self.files)
    }
}

/// A scan never holds more files than its bound, and no internal ones are added.
pub proof fn scan_is_bounded(
    files: Seq<FileStampView>,
    name: Seq<char>,
    kind: EntryKind,
    stamp: FileStampView,
)
    requires
        files.len() <= MAX_SCAN_ENTRIES,
    ensures
        visited(files, name, kind, stamp).1.len() <= MAX_SCAN_ENTRIES,
        internal(name) ==> visited(files, name, kind, stamp).1 == files,
{
}

/// A link is reported like a file and never followed.
pub proof fn links_are_reported(files: Seq<FileStampView>, name: Seq<char>, stamp: FileStampView)
    requires
        files.len() < MAX_SCAN_ENTRIES,
        !internal(name),
    ensures
        visited(files, name, EntryKind::Link, stamp) == (Visit::Next, files.push(stamp)),
{
}

} // verus!

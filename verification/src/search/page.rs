//! Fetched pages: which addresses are fetched, how much of a page is read, and
//! the plain text of an HTML document.

use vstd::prelude::*;

use crate::error::{ApiError, ApiErrorKind, ApiErrorView};
use crate::llm::sse::decode_lossy;
use crate::text::{
    byte_count, chars_of, decimal_of, lower, quote, replace_all, same, space, starts_with,
    string_of,
};

verus! {

/// The longest page text, in bytes before entities are decoded.
pub const MAX_PAGE_CHARS: usize = 20_000;

/// How many bytes of a page are read at all.
pub const MAX_FETCH_BYTES: usize = 262_144;

/// What the document is skipped up to.
#[derive(Debug, Clone, Copy, PartialEq, Eq, Structural)]
pub enum Skip {
    /// Nothing: text counts.
    Nothing,
    /// The end of a script.
    Script,
    /// The end of a style sheet.
    Style,
}

/// The place behind the tag whose characters start at `i`.
pub open spec fn tag_end(s: Seq<char>, i: int) -> int
    decreases s.len() - i,
{
    if i < 0 || i >= s.len() {
        s.len() as int
    } else if s[i] == '>' {
        i + 1
    } else {
        tag_end(s, i + 1)
    }
}

/// What is skipped behind a tag in text.
pub open spec fn skip_after(tag: Seq<char>) -> Skip {
    let t = crate::text::ascii_lower(tag);
    if crate::text::begins(t, "<script"@) {
        Skip::Script
    } else if crate::text::begins(t, "<style"@) {
        Skip::Style
    } else {
        Skip::Nothing
    }
}

/// What is skipped behind a tag in a part that is skipped.
pub open spec fn still_skipped(skip: Skip, tag: Seq<char>) -> Skip {
    let t = crate::text::ascii_lower(tag);
    match skip {
        Skip::Nothing => Skip::Nothing,
        Skip::Script => if crate::text::begins(t, "</script"@) {
            Skip::Nothing
        } else {
            Skip::Script
        },
        Skip::Style => if crate::text::begins(t, "</style"@) {
            Skip::Nothing
        } else {
            Skip::Style
        },
    }
}

/// The text of a document from the place `i` on, behind the text `out`: tags
/// and skipped parts are left out, and it stops once the bound is reached.
pub open spec fn text_from(s: Seq<char>, i: int, skip: Skip, out: Seq<char>) -> Seq<char>
    decreases s.len() - i,
{
    if i < 0 || i >= s.len() {
        out
    } else if s[i] == '<' {
        let end = tag_end(s, i + 1);
        let tag = s.subrange(i, end);
        if end <= i || end > s.len() {
            out
        } else if skip == Skip::Nothing {
            text_from(s, end, skip_after(tag), out)
        } else {
            text_from(s, end, still_skipped(skip, tag), out)
        }
    } else if skip != Skip::Nothing {
        text_from(s, i + 1, skip, out)
    } else if crate::text::byte_len(out.push(s[i])) >= MAX_PAGE_CHARS {
        out.push(s[i])
    } else {
        text_from(s, i + 1, skip, out.push(s[i]))
    }
}

/// A text with its common entities decoded.
pub open spec fn decoded(s: Seq<char>) -> Seq<char> {
    let a = crate::text::replace(s, "&amp;"@, "&"@);
    let b = crate::text::replace(a, "&lt;"@, "<"@);
    let c = crate::text::replace(b, "&gt;"@, ">"@);
    let d = crate::text::replace(c, "&quot;"@, "\""@);
    let e = crate::text::replace(d, "&#39;"@, "'"@);
    crate::text::replace(e, "&nbsp;"@, " "@)
}

/// The words of a text with single spaces between them.
pub open spec fn spaced(s: Seq<char>) -> Seq<char>
    decreases s.len(),
{
    if s.len() == 0 {
        Seq::empty()
    } else {
        let before = spaced(s.drop_last());
        if crate::text::is_space(s.last()) {
            before
        } else if before.len() > 0 && crate::text::is_space(s[s.len() - 2]) {
            before.push(' ').push(s.last())
        } else {
            before.push(s.last())
        }
    }
}

/// The plain text of an HTML document.
pub open spec fn plain_text(html: Seq<char>) -> Seq<char> {
    spaced(decoded(text_from(html, 0, Skip::Nothing, Seq::empty())))
}

proof fn lemma_tag_end(s: Seq<char>, i: int)
    requires
        0 <= i <= s.len(),
    ensures
        i <= tag_end(s, i) <= s.len(),
    decreases s.len() - i,
{
    if i < s.len() && s[i] != '>' {
        lemma_tag_end(s, i + 1);
    }
}

/// The place behind the tag whose characters start at `i`.
fn find_tag_end(v: &Vec<char>, i: usize) -> (r: usize)
    requires
        i <= v@.len(),
    ensures
        r == tag_end(v@, i as int),
        i <= r <= v@.len(),
{
    let mut k: usize = i;
    while k < v.len()
        invariant
            i <= k <= v@.len(),
            tag_end(v@, i as int) == tag_end(v@, k as int),
        decreases v.len() - k,
    {
        if v[k] == '>' {
            return k + 1;
        }
        k = k + 1;
    }
    k
}

/// What is skipped behind a tag.
fn next_skip(skip: Skip, tag: &str) -> (r: Skip)
    ensures
        r == if skip == Skip::Nothing {
            skip_after(tag@)
        } else {
            still_skipped(skip, tag@)
        },
{
    let t = lower(tag);
    match skip {
        Skip::Nothing => {
            if starts_with(t.as_str(), "<script") {
                Skip::Script
            } else if starts_with(t.as_str(), "<style") {
                Skip::Style
            } else {
                Skip::Nothing
            }
        },
        Skip::Script => {
            if starts_with(t.as_str(), "</script") {
                Skip::Nothing
            } else {
                Skip::Script
            }
        },
        Skip::Style => {
            if starts_with(t.as_str(), "</style") {
                Skip::Nothing
            } else {
                Skip::Style
            }
        },
    }
}

/// Decodes the entities that matter for readable text.
pub fn decode_entities(text: &str) -> (r: String)
    ensures
        r@ == decoded(text@),
{
    proof {
        reveal_strlit("&amp;");
        reveal_strlit("&lt;");
        reveal_strlit("&gt;");
        reveal_strlit("&quot;");
        reveal_strlit("&#39;");
        reveal_strlit("&nbsp;");
    }
    let a = replace_all(text, "&amp;", "&");
    let b = replace_all(a.as_str(), "&lt;", "<");
    let c = replace_all(b.as_str(), "&gt;", ">");
    let d = replace_all(c.as_str(), "&quot;", "\"");
    let e = replace_all(d.as_str(), "&#39;", "'");
    replace_all(e.as_str(), "&nbsp;", " ")
}

/// The words of a text with single spaces between them.
pub fn collapse_space(text: &str) -> (r: String)
    ensures
        r@ == spaced(text@),
{
    let v = chars_of(text);
    let mut out = String::new();
    let mut any = false;
    let mut i: usize = 0;
    assert(v@.take(0) =~= Seq::<char>::empty());
    assert(out@ =~= spaced(v@.take(0)));
    while i < v.len()
        invariant
            i <= v.len(),
            v@ == text@,
            out@ == spaced(v@.take(i as int)),
            any == (out@.len() > 0),
        decreases v.len() - i,
    {
        assert(v@.take(i + 1).drop_last() =~= v@.take(i as int));
        assert(v@.take(i + 1).last() == v@[i as int]);
        if !space(v[i]) {
            assert(i > 0 ==> v@.take(i + 1)[i - 1] == v@[i - 1]);
            if any && i > 0 && space(v[i - 1]) {
                out.push(' ');
            }
            assert(any ==> i > 0);
            out.push(v[i]);
            any = true;
        }
        i = i + 1;
    }
    assert(v@.take(i as int) =~= text@);
    out
}

/// The plain text of an HTML document: scripts and style sheets are dropped with
/// what they hold, then all tags; white space is collapsed and the length is
/// capped.
pub fn strip_html(html: &str) -> (r: String)
    ensures
        r@ == plain_text(html@),
{
    let v = chars_of(html);
    let mut out = String::new();
    let mut skip = Skip::Nothing;
    let mut i: usize = 0;
    assert(out@ =~= Seq::<char>::empty());
    let ghost whole = text_from(v@, 0, Skip::Nothing, Seq::empty());
    while i < v.len()
        invariant_except_break
            whole == text_from(v@, i as int, skip, out@),
        invariant
            i <= v.len(),
        ensures
            out@ == whole,
        decreases v.len() - i,
    {
        if v[i] == '<' {
            let end = find_tag_end(&v, i + 1);
            let tag = string_of(&v, i, end);
            skip = next_skip(skip, tag.as_str());
            i = end;
        } else {
            if skip == Skip::Nothing {
                out.push(v[i]);
                if byte_count(out.as_str()) >= MAX_PAGE_CHARS {
                    break;
                }
            }
            i = i + 1;
        }
    }
    collapse_space(decode_entities(out.as_str()).as_str())
}

/// The scheme of an address, or why it is none, as `Url::parse` sees it.
pub uninterp spec fn url_scheme(url: Seq<char>) -> Result<Seq<char>, Seq<char>>;

/// The content of a scheme or a message.
pub open spec fn scheme_view(r: Result<String, String>) -> Result<Seq<char>, Seq<char>> {
    match r {
        Ok(s) => Ok(s@),
        Err(e) => Err(e@),
    }
}

/// Calls `Url::parse`: gives the scheme of an absolute address, or the parser's
/// message.
#[verifier::external_body]
fn parse_scheme(url: &str) -> (r: Result<String, String>)
    ensures
        scheme_view(r) == url_scheme(url@),
{
    match reqwest::Url::parse(url) {
        Ok(parsed) => Ok(parsed.scheme().to_owned()),
        Err(e) => Err(e.to_string()),
    }
}

/// Why an address is not fetched, given its scheme; none for the web's own
/// schemes.
pub open spec fn fetch_refusal(url: Seq<char>, scheme: Result<Seq<char>, Seq<char>>) -> Option<
    ApiErrorView,
> {
    match scheme {
        Err(e) => Some(
            crate::error::failure(
                ApiErrorKind::Protocol,
                "bad result url "@ + crate::text::quoted(url) + ": "@ + e,
            ),
        ),
        Ok(s) => if s == "http"@ || s == "https"@ {
            None
        } else {
            Some(
                crate::error::failure(
                    ApiErrorKind::Protocol,
                    "refusing to fetch non-http(s) url "@ + crate::text::quoted(url),
                ),
            )
        },
    }
}

/// Whether an address with a scheme may be fetched: only the web's own schemes
/// are, so that a search hit cannot name a local file.
pub fn allow_scheme(url: &str, scheme: Result<String, String>) -> (r: Result<(), ApiError>)
    ensures
        crate::error::error_of(r) == fetch_refusal(url@, scheme_view(scheme)),
{
    match scheme {
        Err(e) => {
            let mut message = "bad result url ".to_owned();
            message.append(quote(url).as_str());
            message.append(": ");
            message.append(e.as_str());
            Err(ApiError::new(ApiErrorKind::Protocol, message.as_str()))
        },
        Ok(s) => {
            if same(s.as_str(), "http") || same(s.as_str(), "https") {
                return Ok(());
            }
            let mut message = "refusing to fetch non-http(s) url ".to_owned();
            message.append(quote(url).as_str());
            Err(ApiError::new(ApiErrorKind::Protocol, message.as_str()))
        },
    }
}

/// Whether an address may be fetched.
pub fn check_url(url: &str) -> (r: Result<(), ApiError>)
    ensures
        crate::error::error_of(r) == fetch_refusal(url@, url_scheme(url@)),
{
    allow_scheme(url, parse_scheme(url))
}

/// Whether a response with a status is a page.
pub fn check_status(url: &str, status: u16) -> (r: Result<(), ApiError>)
    ensures
        crate::error::error_of(r) == if 200 <= status < 300 {
            None::<ApiErrorView>
        } else {
            Some(
                crate::error::failure(
                    ApiErrorKind::Provider,
                    "fetching "@ + url@ + " returned HTTP "@ + crate::text::decimal(status as nat),
                ),
            )
        },
{
    if 200 <= status && status < 300 {
        return Ok(());
    }
    let mut message = "fetching ".to_owned();
    message.append(url);
    message.append(" returned HTTP ");
    message.append(decimal_of(status as u64).as_str());
    Err(ApiError::new(ApiErrorKind::Provider, message.as_str()))
}

/// The error of a page that breaks off.
pub fn read_error(url: &str, cause: &str) -> (r: ApiError)
    ensures
        r@ == crate::error::failure(
            ApiErrorKind::Network,
            "cannot read "@ + url@ + ": "@ + cause@,
        ),
{
    let mut message = "cannot read ".to_owned();
    message.append(url);
    message.append(": ");
    message.append(cause);
    ApiError::new(ApiErrorKind::Network, message.as_str())
}

/// The first bytes of a page, at most the bound.
#[derive(Debug)]
pub struct PageReader {
    body: Vec<u8>,
}

impl View for PageReader {
    type V = Seq<u8>;

    closed spec fn view(&self) -> Seq<u8> {
        self.body@
    }
}

/// At most the first bytes of a page.
pub open spec fn first_bytes(all: Seq<u8>) -> Seq<u8> {
    if all.len() <= MAX_FETCH_BYTES {
        all
    } else {
        all.take(MAX_FETCH_BYTES as int)
    }
}

impl PageReader {
    /// Nothing was read yet.
    pub fn new() -> (r: PageReader)
        ensures
            r@ == Seq::<u8>::empty(),
    {
        PageReader { body: Vec::new() }
    }

    /// Whether more of the page is to be read.
    pub fn wants_more(&self) -> (r: bool)
        ensures
            r == (self@.len() < MAX_FETCH_BYTES),
    {
        self.body.len() < MAX_FETCH_BYTES
    }

    /// Adds a chunk; what exceeds the bound is dropped.
    pub fn push(&mut self, chunk: &Vec<u8>)
        ensures
            old(self)@.len() <= MAX_FETCH_BYTES ==> final(self)@ == first_bytes(
                old(self)@ + chunk@,
            ),
            old(self)@.len() > MAX_FETCH_BYTES ==> final(self)@ == old(self)@,
    {
        let ghost start = self.body@;
        let mut i: usize = 0;
        while i < chunk.len() && self.body.len() < MAX_FETCH_BYTES
            invariant
                i <= chunk.len(),
                self.body@ == start + chunk@.take(i as int),
                start.len() <= MAX_FETCH_BYTES ==> self.body@.len() <= MAX_FETCH_BYTES,
                start.len() > MAX_FETCH_BYTES ==> i == 0,
            decreases chunk.len() - i,
        {
            assert(chunk@.take(i + 1) =~= chunk@.take(i as int).push(chunk@[i as int]));
            self.body.push(chunk[i]);
            i = i + 1;
            assert(self.body@ =~= start + chunk@.take(i as int));
        }
        assert(start.len() <= MAX_FETCH_BYTES ==> self.body@ =~= first_bytes(start + chunk@));
        assert(start.len() > MAX_FETCH_BYTES ==> self.body@ =~= start);
    }

    /// The plain text of the page.
    pub fn text(&self) -> (r: String)
        ensures
            r@ == plain_text(crate::llm::sse::lossy(self@)),
    {
        strip_html(decode_lossy(&self.body).as_str())
    }
}

/// What a reader holds after several chunks.
pub open spec fn read_all(start: Seq<u8>, chunks: Seq<Seq<u8>>) -> Seq<u8>
    decreases chunks.len(),
{
    if chunks.len() == 0 {
        start
    } else {
        first_bytes(read_all(start, chunks.drop_last()) + chunks.last())
    }
}

/// The bytes of several chunks.
pub open spec fn all_bytes(chunks: Seq<Seq<u8>>) -> Seq<u8>
    decreases chunks.len(),
{
    if chunks.len() == 0 {
        Seq::empty()
    } else {
        all_bytes(chunks.drop_last()) + chunks.last()
    }
}

/// However a page arrives, its first bytes are read, and never more than the
/// bound.
pub proof fn page_is_read_up_to_the_bound(chunks: Seq<Seq<u8>>)
    ensures
        read_all(Seq::empty(), chunks) == first_bytes(all_bytes(chunks)),
        read_all(Seq::empty(), chunks).len() <= MAX_FETCH_BYTES,
    decreases chunks.len(),
{
    if chunks.len() > 0 {
        page_is_read_up_to_the_bound(chunks.drop_last());
        assert(first_bytes(first_bytes(all_bytes(chunks.drop_last())) + chunks.last())
            =~= first_bytes(all_bytes(chunks.drop_last()) + chunks.last()));
    }
}

/// Only addresses with one of the web's own schemes are fetched.
pub proof fn only_web_pages_are_fetched(url: Seq<char>, scheme: Result<Seq<char>, Seq<char>>)
    requires
        fetch_refusal(url, scheme) is None,
    ensures
        scheme == Ok::<Seq<char>, Seq<char>>("http"@) || scheme == Ok::<Seq<char>, Seq<char>>(
            "https"@,
        ),
{
}

/// A text has at least as many bytes as characters.
proof fn lemma_bytes(s: Seq<char>)
    ensures
        crate::text::byte_len(s) >= s.len(),
    decreases s.len(),
{
    if s.len() > 0 {
        lemma_bytes(s.drop_first());
    }
}

/// Whether a text holds no tag and is within the bound.
spec fn untagged(s: Seq<char>) -> bool {
    &&& s.len() <= MAX_PAGE_CHARS
    &&& forall|k: int| 0 <= k < s.len() ==> s[k] != '<'
}

proof fn lemma_text_from(s: Seq<char>, i: int, skip: Skip, out: Seq<char>)
    requires
        0 <= i <= s.len(),
        untagged(out),
        crate::text::byte_len(out) < MAX_PAGE_CHARS,
    ensures
        untagged(text_from(s, i, skip, out)),
    decreases s.len() - i,
{
    lemma_bytes(out);
    if i < s.len() {
        if s[i] == '<' {
            lemma_tag_end(s, i + 1);
            let end = tag_end(s, i + 1);
            let tag = s.subrange(i, end);
            if skip == Skip::Nothing {
                lemma_text_from(s, end, skip_after(tag), out);
            } else {
                lemma_text_from(s, end, still_skipped(skip, tag), out);
            }
        } else if skip != Skip::Nothing {
            lemma_text_from(s, i + 1, skip, out);
        } else {
            assert(untagged(out.push(s[i])));
            if crate::text::byte_len(out.push(s[i])) < MAX_PAGE_CHARS {
                lemma_text_from(s, i + 1, skip, out.push(s[i]));
            }
        }
    }
}

/// What stands for a text is no longer than what it replaces.
proof fn lemma_replace_shrinks(s: Seq<char>, pat: Seq<char>, by: Seq<char>)
    requires
        by.len() <= pat.len(),
    ensures
        crate::text::replace(s, pat, by).len() <= s.len(),
    decreases s.len(),
{
    if pat.len() > 0 && s.len() >= pat.len() {
        if crate::text::occurs_at(s, pat, 0) {
            lemma_replace_shrinks(s.skip(pat.len() as int), pat, by);
        } else {
            lemma_replace_shrinks(s.skip(1), pat, by);
        }
    }
}

proof fn lemma_spaced(s: Seq<char>)
    ensures
        spaced(s).len() <= s.len(),
        s.len() > 0 && crate::text::is_space(s.last()) ==> spaced(s).len() < s.len(),
        spaced(s).len() > 0 ==> !crate::text::is_space(spaced(s)[0]),
        spaced(s).len() > 0 ==> !crate::text::is_space(spaced(s).last()),
        forall|k: int|
            0 <= k < spaced(s).len() && crate::text::is_space(#[trigger] spaced(s)[k])
                ==> spaced(s)[k] == ' ' && k + 1 < spaced(s).len() && !crate::text::is_space(
                spaced(s)[k + 1],
            ),
    decreases s.len(),
{
    if s.len() > 0 {
        lemma_spaced(s.drop_last());
        assert(s.len() > 1 ==> s.drop_last().last() == s[s.len() - 2]);
    }
}

/// The text of a page is bounded, whatever the page holds; its words stand with
/// single spaces between them.
pub proof fn page_text_is_bounded(html: Seq<char>)
    ensures
        plain_text(html).len() <= MAX_PAGE_CHARS,
        forall|k: int|
            0 <= k < plain_text(html).len() && crate::text::is_space(#[trigger] plain_text(html)[k])
                ==> plain_text(html)[k] == ' ' && k + 1 < plain_text(html).len()
                && !crate::text::is_space(plain_text(html)[k + 1]),
{
    let none = Seq::<char>::empty();
    lemma_text_from(html, 0, Skip::Nothing, none);
    let s = text_from(html, 0, Skip::Nothing, none);
    reveal_strlit("&amp;");
    reveal_strlit("&");
    reveal_strlit("&lt;");
    reveal_strlit("<");
    reveal_strlit("&gt;");
    reveal_strlit(">");
    reveal_strlit("&quot;");
    reveal_strlit("\"");
    reveal_strlit("&#39;");
    reveal_strlit("'");
    reveal_strlit("&nbsp;");
    reveal_strlit(" ");
    let a = crate::text::replace(s, "&amp;"@, "&"@);
    let b = crate::text::replace(a, "&lt;"@, "<"@);
    let c = crate::text::replace(b, "&gt;"@, ">"@);
    let d = crate::text::replace(c, "&quot;"@, "\""@);
    let e = crate::text::replace(d, "&#39;"@, "'"@);
    lemma_replace_shrinks(s, "&amp;"@, "&"@);
    lemma_replace_shrinks(a, "&lt;"@, "<"@);
    lemma_replace_shrinks(b, "&gt;"@, ">"@);
    lemma_replace_shrinks(c, "&quot;"@, "\""@);
    lemma_replace_shrinks(d, "&#39;"@, "'"@);
    lemma_replace_shrinks(e, "&nbsp;"@, " "@);
    lemma_spaced(decoded(s));
}

/// No tag survives: what is taken from a document before entities are decoded
/// holds no `<`.
pub proof fn tags_are_dropped(html: Seq<char>)
    ensures
        forall|k: int|
            0 <= k < text_from(html, 0, Skip::Nothing, Seq::empty()).len() ==> text_from(
                html,
                0,
                Skip::Nothing,
                Seq::empty(),
            )[k] != '<',
{
    lemma_text_from(html, 0, Skip::Nothing, Seq::empty());
}

} // verus!

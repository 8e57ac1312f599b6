//! What holds of every search and of every page: what was asked for is what is
//! sent, what the service found is what is given, and the text of a page is kept.

use vstd::prelude::*;

use crate::config::SearchProviderKind;
use crate::error::{ApiError, ApiErrorKind};
use crate::json::{FieldView, JsonView};
use crate::search::page::{
    decoded, plain_text, skip_after, spaced, still_skipped, tag_end, text_from, Skip,
    MAX_PAGE_CHARS,
};
use crate::search::{
    answer_of, answer_to, configured, hit_in, hits_in, results_of, search_call, HitView, HttpSearch,
    HttpSearchView, ParamView, SearchCall, SearchResultView,
};

verus! {

/// Whether a request has one parameter of a name, with a value.
pub open spec fn carries(params: Seq<ParamView>, name: Seq<char>, value: Seq<char>) -> bool {
    &&& exists|i: int| 0 <= i < params.len() && (#[trigger] params[i]).name == name
    &&& forall|i: int|
        0 <= i < params.len() && (#[trigger] params[i]).name == name ==> params[i].value == value
}

/// Whatever the service is, what the user asked for is sent unchanged, together
/// with how many results are wanted where the service takes that, and with the
/// key where it needs one.
pub proof fn query_is_sent(s: HttpSearchView, query: Seq<char>, max_results: usize)
    ensures
        s.kind == SearchProviderKind::Off <==> search_call(s, query, max_results) is None,
        search_call(s, query, max_results) matches Some(c) ==> match s.kind {
            SearchProviderKind::Brave => carries(c.query, "q"@, query) && carries(
                c.query,
                "count"@,
                crate::text::decimal(max_results as nat),
            ) && carries(c.headers, "X-Subscription-Token"@, s.api_key) && c.body is None && c.url
                == "https://api.search.brave.com/res/v1/web/search"@,
            SearchProviderKind::Tavily => c.body is Some && crate::fields::str_at(
                c.body->0,
                "query"@,
            ) == Some(query) && crate::fields::str_at(c.body->0, "api_key"@) == Some(s.api_key)
                && crate::fields::u64_at(c.body->0, "max_results"@) == Some(max_results as u64)
                && c.url == "https://api.tavily.com/search"@,
            SearchProviderKind::Searxng => carries(c.query, "q"@, query) && carries(
                c.query,
                "format"@,
                "json"@,
            ) && c.body is None && c.url == s.base_url + "/search"@,
            SearchProviderKind::Off => false,
        },
{
    reveal_strlit("q");
    reveal_strlit("count");
    reveal_strlit("format");
    reveal_strlit("Accept");
    reveal_strlit("X-Subscription-Token");
    assert("q"@.len() == 1 && "count"@.len() == 5 && "format"@.len() == 6);
    assert("Accept"@.len() == 6 && "X-Subscription-Token"@.len() == 20);
    if let Some(c) = search_call(s, query, max_results) {
        match s.kind {
            SearchProviderKind::Brave => {
                assert(c.query[0].name == "q"@ && c.query[1].name == "count"@);
                assert(c.headers[1].name == "X-Subscription-Token"@);
            },
            SearchProviderKind::Tavily => {
                reveal_strlit("api_key");
                reveal_strlit("query");
                reveal_strlit("max_results");
                assert("api_key"@.len() == 7 && "query"@.len() == 5 && "max_results"@.len() == 11);
                let fields = seq![
                    crate::json::entry("api_key"@, JsonView::Str(s.api_key)),
                    crate::json::entry("query"@, JsonView::Str(query)),
                    crate::json::entry("max_results"@, JsonView::U64(max_results as u64)),
                ];
                crate::json::lemma_collect_has(fields, 0);
                crate::json::lemma_collect_has(fields, 1);
                crate::json::lemma_collect_has(fields, 2);
            },
            SearchProviderKind::Searxng => {
                assert(c.query[0].name == "q"@ && c.query[1].name == "format"@);
            },
            SearchProviderKind::Off => {},
        }
    }
}

/// A service is set up exactly where it has what it needs, an address or a key,
/// and then with what was configured.
pub proof fn service_has_what_it_needs(
    kind: SearchProviderKind,
    api_key: Seq<char>,
    base_url: Seq<char>,
)
    ensures
        configured(kind, api_key, base_url) is Ok <==> match kind {
            SearchProviderKind::Off => false,
            SearchProviderKind::Searxng => crate::text::trim(base_url).len() > 0,
            _ => crate::text::trim(api_key).len() > 0,
        },
        configured(kind, api_key, base_url) matches Ok(s) ==> s.kind == kind && s.api_key
            == crate::text::trim(api_key) && s.base_url == crate::text::trim_end_char(
            crate::text::trim(base_url),
            '/',
        ),
        configured(kind, api_key, base_url) matches Err(e) ==> e.kind == ApiErrorKind::Config,
{
}

/// What a service found is given in its order: the results of two lists of hits
/// are the one after the other, and a hit with an address gives its title, its
/// address and its text; one without gives nothing.
pub proof fn every_hit_is_given(a: Seq<HitView>, b: Seq<HitView>)
    ensures
        results_of(a + b) == results_of(a) + results_of(b),
        a.len() == 0 ==> results_of(a).len() == 0,
        a.len() == 1 ==> match a[0].url {
            Some(url) => results_of(a).len() == 1 && results_of(a)[0].url == url && (
            a[0].title matches Some(t) ==> results_of(a)[0].title == t) && (a[0].title is None
                ==> results_of(a)[0].title.len() == 0) && (a[0].text matches Some(t)
                ==> results_of(a)[0].snippet == t) && (a[0].text is None
                ==> results_of(a)[0].snippet.len() == 0),
            None => results_of(a).len() == 0,
        },
    decreases b.len(),
{
    if b.len() == 0 {
        assert(a + b =~= a);
        assert(results_of(a) + results_of(b) =~= results_of(a));
    } else {
        assert((a + b).drop_last() =~= a + b.drop_last());
        assert((a + b).last() == b.last());
        every_hit_is_given(a, b.drop_last());
        assert(results_of(a + b) =~= results_of(a) + results_of(b));
    }
    if a.len() == 1 {
        reveal_with_fuel(results_of, 2);
        assert(a.drop_last() =~= seq![]);
    }
}

/// Every item of a service's list is read, in its order, or the list is refused.
pub proof fn every_item_is_read(a: Seq<JsonView>, key: Seq<char>)
    ensures
        hits_in(a, key) is Some <==> forall|i: int|
            0 <= i < a.len() ==> hit_in(#[trigger] a[i], key) is Some,
        hits_in(a, key) matches Some(h) ==> h.len() == a.len() && forall|i: int|
            0 <= i < a.len() ==> hit_in(#[trigger] a[i], key) == Some(h[i]),
    decreases a.len(),
{
    if a.len() > 0 {
        let less = a.drop_last();
        every_item_is_read(less, key);
        assert forall|i: int| 0 <= i < less.len() implies less[i] == a[i] by {}
        if hits_in(a, key) is Some {
            let h = hits_in(a, key)->0;
            assert forall|i: int| 0 <= i < a.len() implies hit_in(#[trigger] a[i], key) == Some(
                h[i],
            ) by {
                if i < less.len() {
                    assert(hit_in(less[i], key) == Some(hits_in(less, key)->0[i]));
                }
            }
        } else if forall|i: int| 0 <= i < a.len() ==> hit_in(#[trigger] a[i], key) is Some {
            assert forall|i: int| 0 <= i < less.len() implies hit_in(
                #[trigger] less[i],
                key,
            ) is Some by {
                assert(hit_in(a[i], key) is Some);
            }
            assert(hit_in(a[a.len() - 1], key) is Some);
        }
    }
}

/// A hit has the title, the address and the text of its item.
pub proof fn hit_says_its_item(o: Seq<FieldView>, key: Seq<char>)
    ensures
        hit_in(JsonView::Object(o), key) matches Some(h) ==> (match crate::json::get(o, "title"@) {
            Some(JsonView::Str(t)) => h.title == Some(t),
            _ => h.title is None,
        }) && (match crate::json::get(o, "url"@) {
            Some(JsonView::Str(t)) => h.url == Some(t),
            _ => h.url is None,
        }) && (match crate::json::get(o, key) {
            Some(JsonView::Str(t)) => h.text == Some(t),
            _ => h.text is None,
        }),
{
}

/// The answer of a service is what its list says, up to as many as were asked
/// for: Brave's list stands under `web`, the others' at the top.
pub proof fn answer_gives_the_first_hits(
    kind: SearchProviderKind,
    o: Seq<FieldView>,
    w: Seq<FieldView>,
    a: Seq<JsonView>,
    max_results: usize,
)
    requires
        kind == SearchProviderKind::Brave ==> crate::json::get(o, "web"@) == Some(
            JsonView::Object(w),
        ) && crate::json::get(w, "results"@) == Some(JsonView::Array(a)) && hits_in(
            a,
            "description"@,
        ) is Some,
        kind != SearchProviderKind::Brave ==> crate::json::get(o, "results"@) == Some(
            JsonView::Array(a),
        ) && hits_in(a, "content"@) is Some,
    ensures
        ({
            let all = results_of(
                if kind == SearchProviderKind::Brave {
                    hits_in(a, "description"@)->0
                } else {
                    hits_in(a, "content"@)->0
                },
            );
            let n = if all.len() < max_results {
                all.len() as int
            } else {
                max_results as int
            };
            answer_of(kind, JsonView::Object(o), max_results) == Ok::<
                Seq<SearchResultView>,
                crate::error::ApiErrorView,
            >(all.take(n))
        }),
{
    let all = results_of(
        if kind == SearchProviderKind::Brave {
            hits_in(a, "description"@)->0
        } else {
            hits_in(a, "content"@)->0
        },
    );
    if all.len() <= max_results {
        assert(all.take(all.len() as int) =~= all);
    }
}

/// An answer counts only with a status of success; any other is an error of the
/// provider that names the status.
pub proof fn only_success_counts(
    kind: SearchProviderKind,
    status: u16,
    body: Seq<char>,
    max_results: usize,
)
    ensures
        answer_to(kind, status, body, max_results) is Ok ==> 200 <= status <= 299,
        !(200 <= status <= 299) ==> (answer_to(kind, status, body, max_results) matches Err(e)
            && e.kind == ApiErrorKind::Provider && crate::text::begins(
            e.message,
            "search provider returned HTTP "@ + crate::text::decimal(status as nat) + ": "@,
        )),
        200 <= status <= 299 ==> (crate::json::parsed(body) matches Ok(j) ==> answer_to(
            kind,
            status,
            body,
            max_results,
        ) == answer_of(kind, j, max_results)),
{
    if !(200 <= status <= 299) {
        let head = "search provider returned HTTP "@ + crate::text::decimal(status as nat) + ": "@;
        let m = answer_to(kind, status, body, max_results)->Err_0.message;
        assert(m.subrange(0, head.len() as int) =~= head);
    }
}

/// The bytes of two texts are those of the one and those of the other.
proof fn lemma_bytes_add(a: Seq<char>, b: Seq<char>)
    ensures
        crate::text::byte_len(a + b) == crate::text::byte_len(a) + crate::text::byte_len(b),
    decreases a.len(),
{
    if a.len() == 0 {
        assert(a + b =~= b);
    } else {
        lemma_bytes_add(a.drop_first(), b);
        assert((a + b).drop_first() =~= a.drop_first() + b);
        assert((a + b)[0] == a[0]);
    }
}

/// Where a tag ends does not depend on what stands before it.
proof fn lemma_tag_shift(s: Seq<char>, i: int, k: int)
    requires
        0 <= k <= i <= s.len(),
    ensures
        tag_end(s, i) == tag_end(s.skip(k), i - k) + k,
        i <= tag_end(s, i) <= s.len(),
    decreases s.len() - i,
{
    if i < s.len() {
        assert(s.skip(k)[i - k] == s[i]);
        if s[i] != '>' {
            lemma_tag_shift(s, i + 1, k);
        }
    }
}

/// The text of the rest of a document does not depend on what stands before it.
proof fn lemma_shift(s: Seq<char>, i: int, k: int, skip: Skip, out: Seq<char>)
    requires
        0 <= k <= i <= s.len(),
    ensures
        text_from(s, i, skip, out) == text_from(s.skip(k), i - k, skip, out),
    decreases s.len() - i,
{
    let t = s.skip(k);
    if i < s.len() {
        assert(t[i - k] == s[i]);
        if s[i] == '<' {
            lemma_tag_shift(s, i + 1, k);
            let end = tag_end(s, i + 1);
            assert(s.subrange(i, end) =~= t.subrange(i - k, end - k));
            let tag = s.subrange(i, end);
            if skip == Skip::Nothing {
                lemma_shift(s, end, k, skip_after(tag), out);
            } else {
                lemma_shift(s, end, k, still_skipped(skip, tag), out);
            }
        } else if skip != Skip::Nothing {
            lemma_shift(s, i + 1, k, skip, out);
        } else if crate::text::byte_len(out.push(s[i])) < MAX_PAGE_CHARS {
            lemma_shift(s, i + 1, k, skip, out.push(s[i]));
        }
    }
}

/// Text between tags is kept as it is, as long as the page is within its bound:
/// a document that begins with `t` gives `t`, then what the rest gives.
pub proof fn text_is_kept(t: Seq<char>, rest: Seq<char>, out: Seq<char>)
    requires
        forall|i: int| 0 <= i < t.len() ==> #[trigger] t[i] != '<',
        crate::text::byte_len(out + t) < MAX_PAGE_CHARS,
    ensures
        text_from(t + rest, 0, Skip::Nothing, out) == text_from(rest, 0, Skip::Nothing, out + t),
        text_from(seq![], 0, Skip::Nothing, out) == out,
        MAX_PAGE_CHARS == 20000,
    decreases t.len(),
{
    let s = t + rest;
    if t.len() == 0 {
        assert(s =~= rest);
        assert(out + t =~= out);
    } else {
        let c = t[0];
        assert(s[0] == c);
        assert(out + t =~= out.push(c) + t.skip(1));
        lemma_bytes_add(out.push(c), t.skip(1));
        lemma_shift(s, 1, 1, Skip::Nothing, out.push(c));
        assert(s.skip(1) =~= t.skip(1) + rest);
        assert forall|i: int| 0 <= i < t.skip(1).len() implies #[trigger] t.skip(1)[i] != '<' by {
            assert(t.skip(1)[i] == t[i + 1]);
        }
        text_is_kept(t.skip(1), rest, out.push(c));
    }
}

/// Whether a text is one tag.
pub open spec fn is_tag(tag: Seq<char>) -> bool {
    &&& tag.len() >= 2
    &&& tag[0] == '<'
    &&& tag.last() == '>'
    &&& forall|i: int| 0 < i < tag.len() - 1 ==> #[trigger] tag[i] != '>'
}

/// Where a tag at the start of a document ends.
proof fn lemma_first_tag(tag: Seq<char>, rest: Seq<char>, i: int)
    requires
        is_tag(tag),
        1 <= i < tag.len(),
    ensures
        tag_end(tag + rest, i) == tag.len(),
    decreases tag.len() - i,
{
    assert((tag + rest)[i] == tag[i]);
    if i < tag.len() - 1 {
        lemma_first_tag(tag, rest, i + 1);
    }
}

/// A tag leaves no trace: what follows it is read as if it were not there, unless
/// it begins a script or a style sheet.
pub proof fn tag_leaves_no_trace(tag: Seq<char>, rest: Seq<char>, out: Seq<char>)
    requires
        is_tag(tag),
        !crate::text::begins(crate::text::ascii_lower(tag), "<script"@),
        !crate::text::begins(crate::text::ascii_lower(tag), "<style"@),
    ensures
        text_from(tag + rest, 0, Skip::Nothing, out) == text_from(rest, 0, Skip::Nothing, out),
{
    let s = tag + rest;
    lemma_first_tag(tag, rest, 1);
    assert(s[0] == '<');
    assert(s.subrange(0, tag.len() as int) =~= tag);
    lemma_shift(s, tag.len() as int, tag.len() as int, Skip::Nothing, out);
    assert(s.skip(tag.len() as int) =~= rest);
}

/// What a skipped part holds before its next tag does not count.
proof fn lemma_skipped(body: Seq<char>, rest: Seq<char>, skip: Skip, out: Seq<char>)
    requires
        skip != Skip::Nothing,
        forall|i: int| 0 <= i < body.len() ==> #[trigger] body[i] != '<',
    ensures
        text_from(body + rest, 0, skip, out) == text_from(rest, 0, skip, out),
    decreases body.len(),
{
    let s = body + rest;
    if body.len() == 0 {
        assert(s =~= rest);
    } else {
        assert(s[0] == body[0]);
        lemma_shift(s, 1, 1, skip, out);
        assert(s.skip(1) =~= body.skip(1) + rest);
        assert forall|i: int| 0 <= i < body.skip(1).len() implies #[trigger] body.skip(1)[i]
            != '<' by {
            assert(body.skip(1)[i] == body[i + 1]);
        }
        lemma_skipped(body.skip(1), rest, skip, out);
    }
}

/// A script or a style sheet is dropped with what it holds, up to the tag that
/// ends it; what follows is read again.
pub proof fn scripts_are_dropped(
    open: Seq<char>,
    body: Seq<char>,
    close: Seq<char>,
    rest: Seq<char>,
    out: Seq<char>,
    style: bool,
)
    requires
        is_tag(open),
        is_tag(close),
        crate::text::begins(
            crate::text::ascii_lower(open),
            if style {
                "<style"@
            } else {
                "<script"@
            },
        ),
        crate::text::begins(
            crate::text::ascii_lower(close),
            if style {
                "</style"@
            } else {
                "</script"@
            },
        ),
        forall|i: int| 0 <= i < body.len() ==> #[trigger] body[i] != '<',
    ensures
        text_from(open + (body + (close + rest)), 0, Skip::Nothing, out) == text_from(
            rest,
            0,
            Skip::Nothing,
            out,
        ),
{
    reveal_strlit("<script");
    reveal_strlit("<style");
    let skip = if style {
        Skip::Style
    } else {
        Skip::Script
    };
    let after = body + (close + rest);
    let s = open + after;
    let low = crate::text::ascii_lower(open);
    if style {
        assert(low.subrange(0, 6)[2] == "<style"@[2]);
        if crate::text::begins(low, "<script"@) {
            assert(low.subrange(0, 7)[2] == "<script"@[2]);
        }
    }
    lemma_first_tag(open, after, 1);
    assert(s[0] == '<');
    assert(s.subrange(0, open.len() as int) =~= open);
    lemma_shift(s, open.len() as int, open.len() as int, skip, out);
    assert(s.skip(open.len() as int) =~= after);
    lemma_skipped(body, close + rest, skip, out);
    let t = close + rest;
    lemma_first_tag(close, rest, 1);
    assert(t[0] == '<');
    assert(t.subrange(0, close.len() as int) =~= close);
    lemma_shift(t, close.len() as int, close.len() as int, Skip::Nothing, out);
    assert(t.skip(close.len() as int) =~= rest);
}

/// A text without the pattern is left as it is.
proof fn lemma_nothing_replaced(s: Seq<char>, pat: Seq<char>, by: Seq<char>)
    requires
        pat.len() > 0,
        forall|i: int| 0 <= i < s.len() ==> #[trigger] s[i] != pat[0],
    ensures
        crate::text::replace(s, pat, by) == s,
    decreases s.len(),
{
    if s.len() >= pat.len() {
        if crate::text::occurs_at(s, pat, 0) {
            assert(s.subrange(0, pat.len() as int)[0] == s[0]);
        }
        assert forall|i: int| 0 <= i < s.skip(1).len() implies #[trigger] s.skip(1)[i]
            != pat[0] by {
            assert(s.skip(1)[i] == s[i + 1]);
        }
        lemma_nothing_replaced(s.skip(1), pat, by);
        assert(seq![s[0]] + s.skip(1) =~= s);
    }
}

/// A text without an ampersand holds no entity and is left as it is.
pub proof fn plain_characters_are_kept(s: Seq<char>)
    requires
        forall|i: int| 0 <= i < s.len() ==> #[trigger] s[i] != '&',
    ensures
        decoded(s) == s,
{
    reveal_strlit("&amp;");
    reveal_strlit("&lt;");
    reveal_strlit("&gt;");
    reveal_strlit("&quot;");
    reveal_strlit("&#39;");
    reveal_strlit("&nbsp;");
    lemma_nothing_replaced(s, "&amp;"@, "&"@);
    lemma_nothing_replaced(s, "&lt;"@, "<"@);
    lemma_nothing_replaced(s, "&gt;"@, ">"@);
    lemma_nothing_replaced(s, "&quot;"@, "\""@);
    lemma_nothing_replaced(s, "&#39;"@, "'"@);
    lemma_nothing_replaced(s, "&nbsp;"@, " "@);
}

/// What is not white space.
pub open spec fn solid() -> spec_fn(char) -> bool {
    |c: char| !crate::text::is_space(c)
}

/// One more character of what is filtered.
proof fn lemma_filter_push(s: Seq<char>, c: char)
    ensures
        s.push(c).filter(solid()) == (if crate::text::is_space(c) {
            s.filter(solid())
        } else {
            s.filter(solid()).push(c)
        }),
{
    reveal(Seq::filter);
    assert(s.push(c).drop_last() =~= s);
}

/// Collapsing white space changes nothing but white space.
pub proof fn only_white_space_collapses(s: Seq<char>)
    ensures
        spaced(s).filter(solid()) == s.filter(solid()),
    decreases s.len(),
{
    if s.len() > 0 {
        only_white_space_collapses(s.drop_last());
        let before = spaced(s.drop_last());
        let c = s.last();
        lemma_filter_push(s.drop_last(), c);
        assert(s.drop_last().push(c) =~= s);
        lemma_filter_push(before, c);
        lemma_filter_push(before, ' ');
        lemma_filter_push(before.push(' '), c);
        assert(crate::text::is_space(' '));
    } else {
        assert(spaced(s) =~= s);
    }
}

/// Words stay apart: a word behind white space stands behind one space, or at the
/// start where nothing stands before it.
pub proof fn words_stay_apart(before: Seq<char>, word: Seq<char>)
    requires
        word.len() > 0,
        before.len() > 0 ==> crate::text::is_space(before.last()),
        forall|i: int| 0 <= i < word.len() ==> !crate::text::is_space(#[trigger] word[i]),
    ensures
        spaced(before + word) == spaced(before) + (if spaced(before).len() > 0 {
            seq![' '] + word
        } else {
            word
        }),
    decreases word.len(),
{
    let s = before + word;
    let less = word.drop_last();
    assert(s.last() == word.last());
    assert(s.drop_last() =~= before + less);
    assert(!crate::text::is_space(word[word.len() - 1]));
    if less.len() == 0 {
        assert(before + less =~= before);
        assert(word =~= seq![word.last()]);
        if before.len() > 0 {
            assert(s[s.len() - 2] == before.last());
        }
        assert(spaced(s) =~= spaced(before) + (if spaced(before).len() > 0 {
            seq![' '] + word
        } else {
            word
        }));
    } else {
        assert forall|i: int| 0 <= i < less.len() implies !crate::text::is_space(
            #[trigger] less[i],
        ) by {
            assert(less[i] == word[i]);
        }
        words_stay_apart(before, less);
        assert(s[s.len() - 2] == word[word.len() - 2]);
        assert(spaced(s) =~= spaced(before) + (if spaced(before).len() > 0 {
            seq![' '] + word
        } else {
            word
        }));
    }
}

/// A document without tags is its own text: its entities are decoded and its
/// white space collapses, and nothing else changes.
pub proof fn plain_document_is_kept(html: Seq<char>)
    requires
        forall|i: int| 0 <= i < html.len() ==> #[trigger] html[i] != '<',
        crate::text::byte_len(html) < MAX_PAGE_CHARS,
    ensures
        plain_text(html) == spaced(decoded(html)),
{
    let none = Seq::<char>::empty();
    assert(none + html =~= html);
    assert(html + none =~= html);
    text_is_kept(html, none, none);
    text_is_kept(none, none, html);
    assert(html + none =~= html);
}

/// What is returned as the call of a service carries the query of the user, in
/// the place that the service takes it from.
pub proof fn call_carries_the_query(
    s: &HttpSearch,
    query: &str,
    max_results: usize,
    r: Result<SearchCall, ApiError>,
)
    requires
        call_ensures(HttpSearch::call, (s, query, max_results), r),
    ensures
        r is Ok <==> s@.kind != SearchProviderKind::Off,
        match r {
            Ok(c) => match c@.body {
                Some(b) => crate::fields::str_at(b, "query"@) == Some(query@),
                None => carries(c@.query, "q"@, query@),
            },
            Err(e) => e@.kind == ApiErrorKind::Config,
        },
{
    query_is_sent(s@, query@, max_results);
}

/// A text with one ampersand holds no entity but the one that begins there.
proof fn lemma_no_entity(s: Seq<char>, pat: Seq<char>, by: Seq<char>, n: int)
    requires
        pat.len() > 1,
        pat[0] == '&',
        forall|i: int| 0 <= i < s.len() && #[trigger] s[i] == '&' ==> i == n,
        0 <= n < s.len() ==> n + 1 < s.len() && s[n + 1] != pat[1],
    ensures
        crate::text::replace(s, pat, by) == s,
{
    assert forall|k: int| 0 <= k < s.len() implies !#[trigger] crate::text::occurs_at(
        s,
        pat,
        k,
    ) by {
        if crate::text::occurs_at(s, pat, k) {
            let part = s.subrange(k, k + pat.len());
            assert(part[0] == s[k]);
            assert(part[1] == s[k + 1]);
        }
    }
    crate::text_laws::every_occurrence_is_replaced(s, pat, by, s.len() as int);
}

/// The entity itself is replaced.
proof fn lemma_entity(a: Seq<char>, pat: Seq<char>, by: Seq<char>, b: Seq<char>)
    requires
        pat.len() > 1,
        pat[0] == '&',
        forall|i: int| 0 <= i < a.len() ==> #[trigger] a[i] != '&',
        forall|i: int| 0 <= i < b.len() ==> #[trigger] b[i] != '&',
    ensures
        crate::text::replace(a + pat + b, pat, by) == a + by + b,
{
    let s = a + pat + b;
    let n = a.len() as int;
    assert forall|k: int| 0 <= k < n implies !#[trigger] crate::text::occurs_at(s, pat, k) by {
        if crate::text::occurs_at(s, pat, k) {
            assert(s.subrange(k, k + pat.len())[0] == s[k]);
            assert(s[k] == a[k]);
        }
    }
    assert(s.subrange(n, n + pat.len()) =~= pat);
    assert(crate::text::occurs_at(s, pat, n));
    crate::text_laws::every_occurrence_is_replaced(s, pat, by, n);
    assert(s.take(n) =~= a);
    assert(s.skip(n + pat.len()) =~= b);
    assert forall|i: int| 0 <= i < b.len() && #[trigger] b[i] == '&' implies i == -1 by {}
    lemma_no_entity(b, pat, by, -1);
}

/// A bracket or a quote that a page writes as an entity is read as that
/// character, and the text around it stays.
pub proof fn entities_are_read_as_their_characters(a: Seq<char>, b: Seq<char>)
    requires
        forall|i: int| 0 <= i < a.len() ==> #[trigger] a[i] != '&',
        forall|i: int| 0 <= i < b.len() ==> #[trigger] b[i] != '&',
    ensures
        decoded(a + "&lt;"@ + b) == a + "<"@ + b,
        decoded(a + "&gt;"@ + b) == a + ">"@ + b,
        decoded(a + "&quot;"@ + b) == a + "\""@ + b,
        decoded(a + "&#39;"@ + b) == a + "'"@ + b,
        decoded(a + "&nbsp;"@ + b) == a + " "@ + b,
{
    reveal_strlit("&amp;");
    reveal_strlit("&lt;");
    reveal_strlit("&gt;");
    reveal_strlit("&quot;");
    reveal_strlit("&#39;");
    reveal_strlit("&nbsp;");
    reveal_strlit("&");
    reveal_strlit("<");
    reveal_strlit(">");
    reveal_strlit("\"");
    reveal_strlit("'");
    reveal_strlit(" ");
    let n = a.len() as int;
    lemma_entity(a, "&lt;"@, "<"@, b);
    lemma_entity(a, "&gt;"@, ">"@, b);
    lemma_entity(a, "&quot;"@, "\""@, b);
    lemma_entity(a, "&#39;"@, "'"@, b);
    lemma_entity(a, "&nbsp;"@, " "@, b);
    lemma_rest(a + "<"@ + b);
    lemma_rest(a + ">"@ + b);
    lemma_rest(a + "\""@ + b);
    lemma_rest(a + "'"@ + b);
    lemma_rest(a + " "@ + b);
    let lt = a + "&lt;"@ + b;
    lemma_no_entity(lt, "&amp;"@, "&"@, n);
    let gt = a + "&gt;"@ + b;
    lemma_no_entity(gt, "&amp;"@, "&"@, n);
    lemma_no_entity(gt, "&lt;"@, "<"@, n);
    let quot = a + "&quot;"@ + b;
    lemma_no_entity(quot, "&amp;"@, "&"@, n);
    lemma_no_entity(quot, "&lt;"@, "<"@, n);
    lemma_no_entity(quot, "&gt;"@, ">"@, n);
    let apos = a + "&#39;"@ + b;
    lemma_no_entity(apos, "&amp;"@, "&"@, n);
    lemma_no_entity(apos, "&lt;"@, "<"@, n);
    lemma_no_entity(apos, "&gt;"@, ">"@, n);
    lemma_no_entity(apos, "&quot;"@, "\""@, n);
    let nbsp = a + "&nbsp;"@ + b;
    lemma_no_entity(nbsp, "&amp;"@, "&"@, n);
    lemma_no_entity(nbsp, "&lt;"@, "<"@, n);
    lemma_no_entity(nbsp, "&gt;"@, ">"@, n);
    lemma_no_entity(nbsp, "&quot;"@, "\""@, n);
    lemma_no_entity(nbsp, "&#39;"@, "'"@, n);
}

/// A text without ampersands holds no entity at all.
proof fn lemma_rest(s: Seq<char>)
    requires
        forall|i: int| 0 <= i < s.len() ==> #[trigger] s[i] != '&',
    ensures
        crate::text::replace(s, "&lt;"@, "<"@) == s,
        crate::text::replace(s, "&gt;"@, ">"@) == s,
        crate::text::replace(s, "&quot;"@, "\""@) == s,
        crate::text::replace(s, "&#39;"@, "'"@) == s,
        crate::text::replace(s, "&nbsp;"@, " "@) == s,
{
    reveal_strlit("&lt;");
    reveal_strlit("&gt;");
    reveal_strlit("&quot;");
    reveal_strlit("&#39;");
    reveal_strlit("&nbsp;");
    lemma_no_entity(s, "&lt;"@, "<"@, -1);
    lemma_no_entity(s, "&gt;"@, ">"@, -1);
    lemma_no_entity(s, "&quot;"@, "\""@, -1);
    lemma_no_entity(s, "&#39;"@, "'"@, -1);
    lemma_no_entity(s, "&nbsp;"@, " "@, -1);
}

} // verus!

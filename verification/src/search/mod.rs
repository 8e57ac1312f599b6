//! Web search: the providers, what they are asked and what their answers mean.
//! The text of a page is untrusted; only the summarizer reads it.

use vstd::prelude::*;

use crate::config::{SearchConfig, SearchProviderKind};
use crate::error::{ApiError, ApiErrorKind, ApiErrorView};
use crate::fields::{read_opt_str, read_record};
use crate::json::{Json, JsonView};
use crate::text::{
    blank, decimal_of, same, trimmed, trimmed_end_char, truncate_chars,
};

pub mod laws;
pub mod page;

verus! {

/// One search hit.
#[derive(Debug, PartialEq, Eq)]
pub struct SearchResult {
    pub title: String,
    pub url: String,
    pub snippet: String,
}

/// The content of a [`SearchResult`].
#[verifier::ext_equal]
pub struct SearchResultView {
    pub title: Seq<char>,
    pub url: Seq<char>,
    pub snippet: Seq<char>,
}

impl View for SearchResult {
    type V = SearchResultView;

    open spec fn view(&self) -> SearchResultView {
        SearchResultView { title: self.title@, url: self.url@, snippet: self.snippet@ }
    }
}

impl Clone for SearchResult {
    fn clone(&self) -> (r: Self)
        ensures
            r@ == self@,
    {
        SearchResult {
            title: self.title.clone(),
            url: self.url.clone(),
            snippet: self.snippet.clone(),
        }
    }
}

/// A web search. Searching only reads; the text of a fetched page is untrusted
/// and must be fenced before the model sees it.
pub trait SearchProvider {
    /// The hits of a query, at most `max_results`.
    fn search(&self, query: &str, max_results: usize) -> Result<Vec<SearchResult>, ApiError>;

    /// The text of a page.
    fn fetch(&self, url: &str) -> Result<String, ApiError>;
}

/// A provider that is not configured: every call says so.
#[derive(Debug, Clone, Copy)]
pub struct DisabledSearch;

/// The error of a provider that is not configured.
pub open spec fn unconfigured() -> ApiErrorView {
    crate::error::failure(
        ApiErrorKind::Config,
        "web search is not configured; set [search] provider in data/config.toml"@,
    )
}

impl SearchProvider for DisabledSearch {
    fn search(&self, query: &str, max_results: usize) -> (r: Result<Vec<SearchResult>, ApiError>)
        ensures
            r matches Err(e) && e@ == unconfigured(),
    {
        Err(
            ApiError::config(
                "web search is not configured; set [search] provider in data/config.toml",
            ),
        )
    }

    fn fetch(&self, url: &str) -> (r: Result<String, ApiError>)
        ensures
            r matches Err(e) && e@ == unconfigured(),
    {
        Err(
            ApiError::config(
                "web search is not configured; set [search] provider in data/config.toml",
            ),
        )
    }
}

/// A page of a [`FakeSearch`].
#[derive(Debug, PartialEq, Eq)]
pub struct FakePage {
    pub url: String,
    pub text: String,
}

/// The content of a [`FakePage`].
#[verifier::ext_equal]
pub struct FakePageView {
    pub url: Seq<char>,
    pub text: Seq<char>,
}

impl View for FakePage {
    type V = FakePageView;

    open spec fn view(&self) -> FakePageView {
        FakePageView { url: self.url@, text: self.text@ }
    }
}

/// A provider in memory.
#[derive(Debug)]
pub struct FakeSearch {
    results: Vec<SearchResult>,
    pages: Vec<FakePage>,
}

/// The text of the page with an address; the last one counts.
pub open spec fn page_at(pages: Seq<FakePageView>, url: Seq<char>) -> Option<Seq<char>>
    decreases pages.len(),
{
    if pages.len() == 0 {
        None
    } else if pages.last().url == url {
        Some(pages.last().text)
    } else {
        page_at(pages.drop_last(), url)
    }
}

/// The snippets of hits as pages.
pub open spec fn snippet_pages(results: Seq<SearchResultView>) -> Seq<FakePageView> {
    results.map_values(|h: SearchResultView| FakePageView { url: h.url, text: h.snippet })
}

impl FakeSearch {
    /// The hits it gives.
    pub closed spec fn hits(&self) -> Seq<SearchResultView> {
        crate::fields::views_of(self.results@)
    }

    /// The pages it serves.
    pub closed spec fn served(&self) -> Seq<FakePageView> {
        crate::fields::views_of(self.pages@)
    }

    /// A provider with hits and pages.
    pub fn new(results: Vec<SearchResult>, pages: Vec<FakePage>) -> (r: FakeSearch)
        ensures
            r.hits() == crate::fields::views_of(results@),
            r.served() == crate::fields::views_of(pages@),
    {
        FakeSearch { results, pages }
    }

    /// A provider with hits, whose snippets it serves as pages.
    pub fn from_results(results: Vec<SearchResult>) -> (r: FakeSearch)
        ensures
            r.hits() == crate::fields::views_of(results@),
            r.served() == snippet_pages(crate::fields::views_of(results@)),
    {
        let mut pages: Vec<FakePage> = Vec::new();
        let mut i: usize = 0;
        while i < results.len()
            invariant
                i <= results.len(),
                pages@.len() == i,
                forall|k: int|
                    0 <= k < i ==> (#[trigger] pages@[k])@.url == results@[k]@.url && pages@[k]@.text
                        == results@[k]@.snippet,
            decreases results.len() - i,
        {
            pages.push(
                FakePage { url: results[i].url.clone(), text: results[i].snippet.clone() },
            );
            i = i + 1;
        }
        assert(crate::fields::views_of(pages@) =~= snippet_pages(
            crate::fields::views_of(results@),
        ));
        FakeSearch { results, pages }
    }
}

impl SearchProvider for FakeSearch {
    fn search(&self, query: &str, max_results: usize) -> (r: Result<Vec<SearchResult>, ApiError>)
        ensures
            r matches Ok(v) && crate::fields::views_of(v@) == first(
                self.hits(),
                max_results as int,
            ),
    {
        Ok(take_results(&self.results, max_results))
    }

    fn fetch(&self, url: &str) -> (r: Result<String, ApiError>)
        ensures
            match page_at(self.served(), url@) {
                Some(text) => r matches Ok(t) && t@ == text,
                None => r matches Err(e) && e@ == crate::error::failure(
                    ApiErrorKind::NotFound,
                    "fake search has no page for "@ + url@,
                ),
            },
    {
        let ghost all = self.served();
        let mut i: usize = self.pages.len();
        assert(all.take(i as int) =~= all);
        while i > 0
            invariant
                i <= self.pages.len(),
                all == crate::fields::views_of(self.pages@),
                page_at(all, url@) == page_at(all.take(i as int), url@),
            decreases i,
        {
            assert(all.take(i as int).last() == self.pages@[i - 1]@);
            assert(all.take(i as int).drop_last() =~= all.take(i - 1));
            if same(self.pages[i - 1].url.as_str(), url) {
                return Ok(self.pages[i - 1].text.clone());
            }
            i = i - 1;
        }
        let mut message = "fake search has no page for ".to_owned();
        message.append(url);
        Err(ApiError::new(ApiErrorKind::NotFound, message.as_str()))
    }
}

/// At most the first `n` elements.
pub open spec fn first<T>(s: Seq<T>, n: int) -> Seq<T> {
    if s.len() <= n {
        s
    } else {
        s.take(n)
    }
}

/// At most the first `n` hits.
fn take_results(results: &Vec<SearchResult>, n: usize) -> (r: Vec<SearchResult>)
    ensures
        crate::fields::views_of(r@) == first(crate::fields::views_of(results@), n as int),
{
    let mut out: Vec<SearchResult> = Vec::new();
    let mut i: usize = 0;
    while i < results.len() && i < n
        invariant
            i <= results.len(),
            i <= n,
            out@.len() == i,
            forall|k: int| 0 <= k < i ==> (#[trigger] out@[k])@ == results@[k]@,
        decreases results.len() - i,
    {
        out.push(results[i].clone());
        i = i + 1;
    }
    assert(crate::fields::views_of(out@) =~= first(crate::fields::views_of(results@), n as int));
    out
}

/// A search service on the web.
#[derive(Debug, PartialEq, Eq)]
pub struct HttpSearch {
    kind: SearchProviderKind,
    api_key: String,
    base_url: String,
}

/// The content of an [`HttpSearch`].
#[verifier::ext_equal]
pub struct HttpSearchView {
    pub kind: SearchProviderKind,
    pub api_key: Seq<char>,
    pub base_url: Seq<char>,
}

impl View for HttpSearch {
    type V = HttpSearchView;

    closed spec fn view(&self) -> HttpSearchView {
        HttpSearchView {
            kind: self.kind,
            api_key: self.api_key@,
            base_url: self.base_url@,
        }
    }
}

/// The search service of a configuration, or what is wrong with it.
pub open spec fn configured(
    kind: SearchProviderKind,
    api_key: Seq<char>,
    base_url: Seq<char>,
) -> Result<HttpSearchView, ApiErrorView> {
    let key = crate::text::trim(api_key);
    let url = crate::text::trim(base_url);
    if kind == SearchProviderKind::Off {
        Err(
            crate::error::failure(
                ApiErrorKind::Config,
                "web search is off; there is no provider to configure"@,
            ),
        )
    } else if kind == SearchProviderKind::Searxng && url.len() == 0 {
        Err(
            crate::error::failure(
                ApiErrorKind::Config,
                "[search] base_url must be set for this provider"@,
            ),
        )
    } else if kind != SearchProviderKind::Searxng && key.len() == 0 {
        Err(
            crate::error::failure(
                ApiErrorKind::Config,
                "[search] api_key must be set for this provider"@,
            ),
        )
    } else {
        Ok(
            HttpSearchView {
                kind: kind,
                api_key: key,
                base_url: crate::text::trim_end_char(url, '/'),
            },
        )
    }
}

/// The content of a search service or an error.
pub open spec fn search_view(r: Result<HttpSearch, ApiError>) -> Result<
    HttpSearchView,
    ApiErrorView,
> {
    match r {
        Ok(s) => Ok(s@),
        Err(e) => Err(e@),
    }
}

/// What a configuration selects.
#[derive(Debug, PartialEq, Eq)]
pub enum SearchBackend {
    /// No search.
    Disabled,
    /// A service on the web.
    Http(HttpSearch),
}

/// What a configuration selects: a service that lacks what it needs is as good
/// as none, so the agent still runs.
pub fn from_config(config: &SearchConfig) -> (r: SearchBackend)
    ensures
        match configured(
            crate::config::sections::search_kind(config.provider@),
            config.api_key@,
            config.base_url@,
        ) {
            Ok(s) => r matches SearchBackend::Http(h) && h@ == s,
            Err(_) => r is Disabled,
        },
{
    match HttpSearch::new(config.kind(), config.api_key.as_str(), config.base_url.as_str()) {
        Ok(s) => SearchBackend::Http(s),
        Err(_) => SearchBackend::Disabled,
    }
}

/// A parameter of a request.
#[derive(Debug, PartialEq, Eq)]
pub struct Param {
    pub name: &'static str,
    pub value: String,
}

/// The content of a [`Param`].
#[verifier::ext_equal]
pub struct ParamView {
    pub name: Seq<char>,
    pub value: Seq<char>,
}

impl View for Param {
    type V = ParamView;

    open spec fn view(&self) -> ParamView {
        ParamView { name: self.name@, value: self.value@ }
    }
}

/// A parameter.
pub open spec fn param(name: Seq<char>, value: Seq<char>) -> ParamView {
    ParamView { name: name, value: value }
}

/// What a search service is asked: a GET, or a POST where there is a body.
#[derive(Debug, PartialEq, Eq)]
pub struct SearchCall {
    pub url: String,
    pub query: Vec<Param>,
    pub headers: Vec<Param>,
    pub body: Option<Json>,
}

/// The content of a [`SearchCall`].
#[verifier::ext_equal]
pub struct SearchCallView {
    pub url: Seq<char>,
    pub query: Seq<ParamView>,
    pub headers: Seq<ParamView>,
    pub body: Option<JsonView>,
}

impl View for SearchCall {
    type V = SearchCallView;

    open spec fn view(&self) -> SearchCallView {
        SearchCallView {
            url: self.url@,
            query: crate::fields::views_of(self.query@),
            headers: crate::fields::views_of(self.headers@),
            body: crate::fields::opt_view(self.body),
        }
    }
}

/// What a service is asked; nothing where there is none.
pub open spec fn search_call(s: HttpSearchView, query: Seq<char>, max_results: usize) -> Option<
    SearchCallView,
> {
    match s.kind {
        SearchProviderKind::Brave => Some(
            SearchCallView {
                url: "https://api.search.brave.com/res/v1/web/search"@,
                query: seq![
                    param("q"@, query),
                    param("count"@, crate::text::decimal(max_results as nat)),
                ],
                headers: seq![
                    param("Accept"@, "application/json"@),
                    param("X-Subscription-Token"@, s.api_key),
                ],
                body: None,
            },
        ),
        SearchProviderKind::Tavily => Some(
            SearchCallView {
                url: "https://api.tavily.com/search"@,
                query: seq![],
                headers: seq![],
                body: Some(
                    crate::json::object(
                        seq![
                            crate::json::entry("api_key"@, JsonView::Str(s.api_key)),
                            crate::json::entry("query"@, JsonView::Str(query)),
                            crate::json::entry("max_results"@, JsonView::U64(max_results as u64)),
                        ],
                    ),
                ),
            },
        ),
        SearchProviderKind::Searxng => Some(
            SearchCallView {
                url: s.base_url + "/search"@,
                query: seq![param("q"@, query), param("format"@, "json"@)],
                headers: seq![],
                body: None,
            },
        ),
        SearchProviderKind::Off => None,
    }
}

/// A hit of a service.
struct Hit {
    title: Option<String>,
    url: Option<String>,
    text: Option<String>,
}

/// The content of a hit.
#[verifier::ext_equal]
pub struct HitView {
    pub title: Option<Seq<char>>,
    pub url: Option<Seq<char>>,
    pub text: Option<Seq<char>>,
}

impl View for Hit {
    type V = HitView;

    closed spec fn view(&self) -> HitView {
        HitView {
            title: crate::text::opt_text(self.title),
            url: crate::text::opt_text(self.url),
            text: crate::text::opt_text(self.text),
        }
    }
}

/// The hit in a JSON value, whose text stands under a key.
pub open spec fn hit_in(j: JsonView, key: Seq<char>) -> Option<HitView> {
    match crate::fields::record(j, seq!["title"@, "url"@, key], true) {
        None => None,
        Some(o) => match (
            crate::fields::opt_str_at(o, "title"@),
            crate::fields::opt_str_at(o, "url"@),
            crate::fields::opt_str_at(o, key),
        ) {
            (Some(title), Some(url), Some(text)) => Some(
                HitView { title: title, url: url, text: text },
            ),
            _ => None,
        },
    }
}

/// The hits in a list of JSON values; none where one of them is no hit.
pub open spec fn hits_in(a: Seq<JsonView>, key: Seq<char>) -> Option<Seq<HitView>>
    decreases a.len(),
{
    if a.len() == 0 {
        Some(seq![])
    } else {
        match (hits_in(a.drop_last(), key), hit_in(a.last(), key)) {
            (Some(before), Some(hit)) => Some(before.push(hit)),
            _ => None,
        }
    }
}

/// The hits under `results` in a JSON value; an absent list is empty.
pub open spec fn results_in(j: JsonView, key: Seq<char>) -> Option<Seq<HitView>> {
    match crate::fields::record(j, seq!["results"@], true) {
        None => None,
        Some(o) => match crate::fields::member(o, "results"@) {
            None => Some(seq![]),
            Some(JsonView::Array(a)) => hits_in(a, key),
            Some(_) => None,
        },
    }
}

/// The hits under `web` in a JSON value; an absent part is empty.
pub open spec fn web_results_in(j: JsonView) -> Option<Seq<HitView>> {
    match crate::fields::record(j, seq!["web"@], true) {
        None => None,
        Some(o) => match crate::fields::member(o, "web"@) {
            None => Some(seq![]),
            Some(JsonView::Null) => Some(seq![]),
            Some(web) => results_in(web, "description"@),
        },
    }
}

/// A text, or an empty one.
pub open spec fn or_empty(o: Option<Seq<char>>) -> Seq<char> {
    match o {
        Some(s) => s,
        None => Seq::empty(),
    }
}

/// The results that hits give: one without an address is left out.
pub open spec fn results_of(hits: Seq<HitView>) -> Seq<SearchResultView>
    decreases hits.len(),
{
    if hits.len() == 0 {
        seq![]
    } else {
        let before = results_of(hits.drop_last());
        let h = hits.last();
        match h.url {
            Some(url) => before.push(
                SearchResultView {
                    title: or_empty(h.title),
                    url: url,
                    snippet: or_empty(h.text),
                },
            ),
            None => before,
        }
    }
}

/// The error of an answer that cannot be read.
pub open spec fn not_understood(cause: Seq<char>) -> ApiErrorView {
    crate::error::failure(
        ApiErrorKind::Protocol,
        "search provider response is not understood: "@ + cause,
    )
}

/// What the JSON answer of a service means.
pub open spec fn answer_of(kind: SearchProviderKind, j: JsonView, max_results: usize) -> Result<
    Seq<SearchResultView>,
    ApiErrorView,
> {
    let hits = match kind {
        SearchProviderKind::Brave => web_results_in(j),
        _ => results_in(j, "content"@),
    };
    match hits {
        Some(h) => Ok(first(results_of(h), max_results as int)),
        None => Err(not_understood("unexpected shape"@)),
    }
}

/// What the answer of a service means: its status, then its text.
pub open spec fn answer_to(
    kind: SearchProviderKind,
    status: u16,
    body: Seq<char>,
    max_results: usize,
) -> Result<Seq<SearchResultView>, ApiErrorView> {
    if !(200 <= status < 300) {
        Err(
            crate::error::failure(
                ApiErrorKind::Provider,
                "search provider returned HTTP "@ + crate::text::decimal(status as nat) + ": "@
                    + crate::text::cut_text(body, 300),
            ),
        )
    } else {
        match crate::json::parsed(body) {
            Ok(j) => answer_of(kind, j, max_results),
            Err(e) => Err(not_understood(e)),
        }
    }
}

/// The content of results or an error.
pub open spec fn results_view(r: Result<Vec<SearchResult>, ApiError>) -> Result<
    Seq<SearchResultView>,
    ApiErrorView,
> {
    match r {
        Ok(v) => Ok(crate::fields::views_of(v@)),
        Err(e) => Err(e@),
    }
}

fn understand_error(cause: &str) -> (r: ApiError)
    ensures
        r@ == not_understood(cause@),
{
    let mut message = "search provider response is not understood: ".to_owned();
    message.append(cause);
    ApiError::new(ApiErrorKind::Protocol, message.as_str())
}

/// The hit in a JSON value.
fn read_hit(j: &Json, key: &'static str) -> (r: Option<Hit>)
    ensures
        crate::fields::opt_view(r) == hit_in(j@, key@),
{
    let names: Vec<&str> = vec!["title", "url", key];
    assert(crate::fields::names_of(names@) =~= seq!["title"@, "url"@, key@]);
    let o = match read_record(j, &names, true) {
        Some(o) => o,
        None => {
            return None;
        },
    };
    match (read_opt_str(&o, "title"), read_opt_str(&o, "url"), read_opt_str(&o, key)) {
        (Some(title), Some(url), Some(text)) => Some(Hit { title, url, text }),
        _ => None,
    }
}

/// The hits under `results` in a JSON value.
fn read_results(j: &Json, key: &'static str) -> (r: Option<Vec<Hit>>)
    ensures
        crate::fields::opt_views(r) == results_in(j@, key@),
{
    let names: Vec<&str> = vec!["results"];
    assert(crate::fields::names_of(names@) =~= seq!["results"@]);
    let o = match read_record(j, &names, true) {
        Some(o) => o,
        None => {
            return None;
        },
    };
    let mut out: Vec<Hit> = Vec::new();
    assert(crate::fields::views_of(out@) =~= seq![]);
    match o.get("results") {
        None => Some(out),
        Some(Json::Array(a)) => {
            proof {
                crate::json::lemma_array_view(Json::Array(*a));
            }
            let ghost all = crate::json::views(a@);
            let mut i: usize = 0;
            assert(all.take(0) =~= seq![]);
            while i < a.len()
                invariant
                    i <= a.len(),
                    all == crate::json::views(a@),
                    results_in(j@, key@) == hits_in(all, key@),
                    hits_in(all.take(i as int), key@) == Some(crate::fields::views_of(out@)),
                decreases a.len() - i,
            {
                assert(all.take(i + 1).drop_last() =~= all.take(i as int));
                assert(all.take(i + 1).last() == a@[i as int]@);
                match read_hit(&a[i], key) {
                    Some(hit) => {
                        let ghost before = crate::fields::views_of(out@);
                        out.push(hit);
                        assert(crate::fields::views_of(out@) =~= before.push(hit@));
                    },
                    None => {
                        proof {
                            lemma_no_hits(all, i + 1, key@);
                        }
                        return None;
                    },
                }
                i = i + 1;
            }
            assert(all.take(i as int) =~= all);
            Some(out)
        },
        Some(_) => None,
    }
}

/// A list is no list of hits where a part of it is none.
proof fn lemma_no_hits(a: Seq<JsonView>, i: int, key: Seq<char>)
    requires
        0 <= i <= a.len(),
        hits_in(a.take(i), key) is None,
    ensures
        hits_in(a, key) is None,
    decreases a.len(),
{
    if i == a.len() {
        assert(a.take(i) =~= a);
    } else {
        assert(a.drop_last().take(i) =~= a.take(i));
        lemma_no_hits(a.drop_last(), i, key);
    }
}

/// The hits under `web` in a JSON value.
fn read_web_results(j: &Json) -> (r: Option<Vec<Hit>>)
    ensures
        crate::fields::opt_views(r) == web_results_in(j@),
{
    let names: Vec<&str> = vec!["web"];
    assert(crate::fields::names_of(names@) =~= seq!["web"@]);
    let o = match read_record(j, &names, true) {
        Some(o) => o,
        None => {
            return None;
        },
    };
    let none: Vec<Hit> = Vec::new();
    assert(crate::fields::views_of(none@) =~= seq![]);
    match o.get("web") {
        None => Some(none),
        Some(Json::Null) => Some(none),
        Some(web) => read_results(web, "description"),
    }
}

/// A text, or an empty one.
fn text_or_empty(o: &Option<String>) -> (r: String)
    ensures
        r@ == or_empty(crate::text::opt_text(*o)),
{
    match o {
        Some(s) => s.clone(),
        None => {
            let r = String::new();
            assert(r@ =~= Seq::<char>::empty());
            r
        },
    }
}

/// The results that hits give.
fn to_results(hits: &Vec<Hit>) -> (r: Vec<SearchResult>)
    ensures
        crate::fields::views_of(r@) == results_of(crate::fields::views_of(hits@)),
{
    let ghost all = crate::fields::views_of(hits@);
    let mut out: Vec<SearchResult> = Vec::new();
    let mut i: usize = 0;
    assert(all.take(0) =~= seq![]);
    assert(crate::fields::views_of(out@) =~= results_of(all.take(0)));
    while i < hits.len()
        invariant
            i <= hits.len(),
            all == crate::fields::views_of(hits@),
            crate::fields::views_of(out@) == results_of(all.take(i as int)),
        decreases hits.len() - i,
    {
        assert(all.take(i + 1).drop_last() =~= all.take(i as int));
        assert(all.take(i + 1).last() == hits@[i as int]@);
        let ghost before = crate::fields::views_of(out@);
        if let Some(url) = &hits[i].url {
            let hit = SearchResult {
                title: text_or_empty(&hits[i].title),
                url: url.clone(),
                snippet: text_or_empty(&hits[i].text),
            };
            out.push(hit);
            assert(crate::fields::views_of(out@) =~= before.push(hit@));
        }
        i = i + 1;
    }
    assert(all.take(i as int) =~= all);
    out
}

impl HttpSearch {
    /// A search service, if it has what it needs.
    pub fn new(kind: SearchProviderKind, api_key: &str, base_url: &str) -> (r: Result<
        HttpSearch,
        ApiError,
    >)
        ensures
            search_view(r) == configured(kind, api_key@, base_url@),
    {
        match kind {
            SearchProviderKind::Off => {
                return Err(
                    ApiError::config("web search is off; there is no provider to configure"),
                );
            },
            SearchProviderKind::Searxng => {
                if blank(base_url) {
                    return Err(
                        ApiError::config("[search] base_url must be set for this provider"),
                    );
                }
            },
            SearchProviderKind::Brave | SearchProviderKind::Tavily => {
                if blank(api_key) {
                    return Err(
                        ApiError::config("[search] api_key must be set for this provider"),
                    );
                }
            },
        }
        Ok(
            HttpSearch {
                kind,
                api_key: trimmed(api_key),
                base_url: trimmed_end_char(trimmed(base_url).as_str(), '/'),
            },
        )
    }

    /// What the service is asked.
    pub fn call(&self, query: &str, max_results: usize) -> (r: Result<SearchCall, ApiError>)
        ensures
            match search_call(self@, query@, max_results) {
                Some(c) => r matches Ok(x) && x@ == c,
                None => r matches Err(e) && e@ == crate::error::failure(
                    ApiErrorKind::Config,
                    "web search is not configured"@,
                ),
            },
    {
        match self.kind {
            SearchProviderKind::Brave => {
                let params = vec![
                    Param { name: "q", value: query.to_owned() },
                    Param { name: "count", value: decimal_of(max_results as u64) },
                ];
                let headers = vec![
                    Param { name: "Accept", value: "application/json".to_owned() },
                    Param { name: "X-Subscription-Token", value: self.api_key.clone() },
                ];
                let c = SearchCall {
                    url: "https://api.search.brave.com/res/v1/web/search".to_owned(),
                    query: params,
                    headers,
                    body: None,
                };
                assert(c@.query =~= search_call(self@, query@, max_results)->Some_0.query);
                assert(c@.headers =~= search_call(self@, query@, max_results)->Some_0.headers);
                Ok(c)
            },
            SearchProviderKind::Tavily => {
                let ghost f = |f: (&str, Json)| crate::json::entry(f.0@, f.1@);
                let fields: Vec<(&str, Json)> = vec![
                    ("api_key", Json::Str(self.api_key.clone())),
                    ("query", Json::of_str(query)),
                    ("max_results", Json::of_u64(max_results as u64)),
                ];
                assert(fields@.map_values(f) =~= seq![
                    crate::json::entry("api_key"@, JsonView::Str(self@.api_key)),
                    crate::json::entry("query"@, JsonView::Str(query@)),
                    crate::json::entry("max_results"@, JsonView::U64(max_results as u64)),
                ]);
                let c = SearchCall {
                    url: "https://api.tavily.com/search".to_owned(),
                    query: Vec::new(),
                    headers: Vec::new(),
                    body: Some(Json::of_fields(fields)),
                };
                assert(c@.query =~= seq![]);
                assert(c@.headers =~= seq![]);
                Ok(c)
            },
            SearchProviderKind::Searxng => {
                let mut url = self.base_url.clone();
                url.append("/search");
                let params = vec![
                    Param { name: "q", value: query.to_owned() },
                    Param { name: "format", value: "json".to_owned() },
                ];
                let c = SearchCall { url, query: params, headers: Vec::new(), body: None };
                assert(c@.query =~= search_call(self@, query@, max_results)->Some_0.query);
                assert(c@.headers =~= seq![]);
                Ok(c)
            },
            SearchProviderKind::Off => Err(ApiError::config("web search is not configured")),
        }
    }

    /// What the service's JSON answer means.
    pub fn read_json(&self, j: &Json, max_results: usize) -> (r: Result<
        Vec<SearchResult>,
        ApiError,
    >)
        ensures
            results_view(r) == answer_of(self@.kind, j@, max_results),
    {
        let hits: Option<Vec<Hit>> = match self.kind {
            SearchProviderKind::Brave => read_web_results(j),
            _ => read_results(j, "content"),
        };
        match hits {
            Some(h) => Ok(take_results(&to_results(&h), max_results)),
            None => Err(understand_error("unexpected shape")),
        }
    }

    /// What the service's answer means.
    pub fn read(&self, status: u16, body: &str, max_results: usize) -> (r: Result<
        Vec<SearchResult>,
        ApiError,
    >)
        ensures
            results_view(r) == answer_to(self@.kind, status, body@, max_results),
    {
        if !(200 <= status && status < 300) {
            let mut message = "search provider returned HTTP ".to_owned();
            message.append(decimal_of(status as u64).as_str());
            message.append(": ");
            message.append(truncate_chars(body, 300).as_str());
            return Err(ApiError::new(ApiErrorKind::Provider, message.as_str()));
        }
        match Json::parse(body) {
            Ok(j) => self.read_json(&j, max_results),
            Err(e) => Err(understand_error(e.as_str())),
        }
    }
}

/// The error of a request that did not go through.
pub fn transport_error(cause: &str) -> (r: ApiError)
    ensures
        r@ == crate::error::failure(ApiErrorKind::Network, "search request failed: "@ + cause@),
{
    let mut message = "search request failed: ".to_owned();
    message.append(cause);
    ApiError::new(ApiErrorKind::Network, message.as_str())
}

/// A search gives at most as many hits as were asked for.
pub proof fn hits_are_bounded(
    kind: SearchProviderKind,
    status: u16,
    body: Seq<char>,
    max_results: usize,
)
    requires
        answer_to(kind, status, body, max_results) is Ok,
    ensures
        answer_to(kind, status, body, max_results)->Ok_0.len() <= max_results,
{
}

/// A provider made from hits serves the snippet of every hit under its address,
/// where the addresses differ.
pub proof fn snippets_are_served(results: Seq<SearchResultView>, i: int)
    requires
        0 <= i < results.len(),
        forall|a: int, b: int| 0 <= a < b < results.len() ==> results[a].url != results[b].url,
    ensures
        page_at(snippet_pages(results), results[i].url) == Some(results[i].snippet),
    decreases results.len(),
{
    let pages = snippet_pages(results);
    if i < results.len() - 1 {
        assert(results[i].url != results[results.len() - 1].url);
        snippets_are_served(results.drop_last(), i);
        assert(pages.drop_last() =~= snippet_pages(results.drop_last()));
    }
}

} // verus!

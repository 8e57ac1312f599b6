use agent_core::search::page::{
    check_status, check_url, decode_entities, strip_html, PageReader, MAX_FETCH_BYTES,
    MAX_PAGE_CHARS,
};
use agent_core::search::{
    from_config, transport_error, FakePage, HttpSearch, SearchBackend,
};
use agent_core::json::Json;
use agent_core::{
    ApiErrorKind, DisabledSearch, FakeSearch, SearchConfig, SearchProvider, SearchProviderKind,
    SearchResult,
};

fn hit(url: &str) -> SearchResult {
    SearchResult { title: "Frogs".into(), url: url.into(), snippet: "frogs are amphibians".into() }
}

#[test]
fn search_strip_html_removes_tags_scripts_and_entities() {
    let html = "<html><head><style>p{color:red}</style></head>\
                <body><h1>Title</h1><script>alert('x')</script>\
                <p>Hello &amp; welcome</p></body></html>";
    let text = strip_html(html);
    assert!(text.contains("Title"));
    assert!(text.contains("Hello & welcome"));
    assert!(!text.contains("alert"));
    assert!(!text.contains("color:red"));
    assert!(!text.contains('<'));
}

#[test]
fn search_disabled_search_reports_that_it_is_unconfigured() {
    let err = DisabledSearch.search("x", 5).unwrap_err();
    assert_eq!(err.kind, ApiErrorKind::Config);
    assert_eq!(DisabledSearch.fetch("x").unwrap_err().kind, ApiErrorKind::Config);
}

#[test]
fn search_fake_search_returns_hits_and_serves_pages() {
    let provider = FakeSearch::from_results(vec![SearchResult {
        title: "Frogs".into(),
        url: "https://example.test/frogs".into(),
        snippet: "frogs are amphibians".into(),
    }]);
    let hits = provider.search("frogs", 5).unwrap();
    assert_eq!(hits.len(), 1);
    assert_eq!(hits[0].title, "Frogs");
    let page = provider.fetch(&hits[0].url).unwrap();
    assert_eq!(page, "frogs are amphibians");
}

#[test]
fn search_http_provider_requires_credentials() {
    assert!(HttpSearch::new(SearchProviderKind::Brave, "", "").is_err());
    assert!(HttpSearch::new(SearchProviderKind::Searxng, "", "").is_err());
    assert!(HttpSearch::new(SearchProviderKind::Brave, "key", "").is_ok());
    assert!(HttpSearch::new(SearchProviderKind::Searxng, "", "http://x").is_ok());
}

#[test]
fn tests_strip_html_removes_tags_scripts_and_entities() {
    let html = "<html><head><style>p{color:red}</style></head>\
                <body><h1>Title</h1><script>alert('x')</script>\
                <p>Hello &amp; welcome</p></body></html>";
    let text = strip_html(html);
    assert!(text.contains("Title"));
    assert!(text.contains("Hello & welcome"));
    assert!(!text.contains("alert"));
    assert!(!text.contains("color:red"));
    assert!(!text.contains('<'));
}

#[test]
fn tests_disabled_search_reports_that_it_is_unconfigured() {
    let err = DisabledSearch.search("x", 5).unwrap_err();
    assert_eq!(err.kind, ApiErrorKind::Config);
    assert_eq!(DisabledSearch.fetch("x").unwrap_err().kind, ApiErrorKind::Config);
}

#[test]
fn tests_fake_search_returns_hits_and_serves_pages() {
    let provider = FakeSearch::from_results(vec![SearchResult {
        title: "Frogs".into(),
        url: "https://example.test/frogs".into(),
        snippet: "frogs are amphibians".into(),
    }]);
    let hits = provider.search("frogs", 5).unwrap();
    assert_eq!(hits.len(), 1);
    assert_eq!(hits[0].title, "Frogs");
    let page = provider.fetch(&hits[0].url).unwrap();
    assert_eq!(page, "frogs are amphibians");
}

#[test]
fn tests_http_provider_requires_credentials() {
    assert!(HttpSearch::new(SearchProviderKind::Brave, "", "").is_err());
    assert!(HttpSearch::new(SearchProviderKind::Searxng, "", "").is_err());
    assert!(HttpSearch::new(SearchProviderKind::Brave, "key", "").is_ok());
    assert!(HttpSearch::new(SearchProviderKind::Searxng, "", "http://x").is_ok());
}

#[test]
fn fake_search_bounds_its_hits_and_knows_its_pages() {
    let pages = vec![
        FakePage { url: "u".into(), text: "old".into() },
        FakePage { url: "u".into(), text: "new".into() },
    ];
    let provider = FakeSearch::new(vec![hit("a"), hit("b"), hit("c")], pages);
    assert_eq!(provider.search("x", 2).unwrap().len(), 2);
    assert_eq!(provider.fetch("u").unwrap(), "new");
    let err = provider.fetch("a").unwrap_err();
    assert_eq!(err.kind, ApiErrorKind::NotFound);
    assert_eq!(err.message, "fake search has no page for a");
}

#[test]
fn a_service_that_is_off_has_nothing_to_configure() {
    let err = HttpSearch::new(SearchProviderKind::Off, "k", "u").unwrap_err();
    assert_eq!(err.message, "web search is off; there is no provider to configure");
    let err = HttpSearch::new(SearchProviderKind::Tavily, " ", "u").unwrap_err();
    assert_eq!(err.message, "[search] api_key must be set for this provider");
    let err = HttpSearch::new(SearchProviderKind::Searxng, "k", " ").unwrap_err();
    assert_eq!(err.message, "[search] base_url must be set for this provider");
}

#[test]
fn the_configuration_selects_a_backend() {
    assert_eq!(from_config(&SearchConfig::default()), SearchBackend::Disabled);
    let mut config = SearchConfig::default();
    config.provider = "searxng".into();
    assert_eq!(from_config(&config), SearchBackend::Disabled);
    config.base_url = " http://x/ ".into();
    let SearchBackend::Http(search) = from_config(&config) else {
        panic!("expected a service");
    };
    let call = search.call("frogs", 3).unwrap();
    assert_eq!(call.url, "http://x/search");
    assert_eq!(call.query[0].value, "frogs");
    assert_eq!(call.query[1].value, "json");
    assert!(call.body.is_none());
}

#[test]
fn services_are_asked_in_their_own_way() {
    let brave = HttpSearch::new(SearchProviderKind::Brave, " key ", "").unwrap();
    let call = brave.call("frogs", 3).unwrap();
    assert_eq!(call.url, "https://api.search.brave.com/res/v1/web/search");
    assert_eq!(call.query[1].name, "count");
    assert_eq!(call.query[1].value, "3");
    assert_eq!(call.headers[1].name, "X-Subscription-Token");
    assert_eq!(call.headers[1].value, "key");
    let tavily = HttpSearch::new(SearchProviderKind::Tavily, "key", "").unwrap();
    let call = tavily.call("frogs", 3).unwrap();
    assert_eq!(
        call.body,
        Some(Json::parse(r#"{"api_key":"key","query":"frogs","max_results":3}"#).unwrap())
    );
}

#[test]
fn answers_of_services_become_hits() {
    let brave = HttpSearch::new(SearchProviderKind::Brave, "key", "").unwrap();
    let body = r#"{"web":{"results":[{"title":"A","url":"u1","description":"d"},{"title":"no url"},{"url":"u2"},{"url":"u3"}]}}"#;
    let hits = brave.read(200, body, 2).unwrap();
    assert_eq!(hits.len(), 2);
    assert_eq!(hits[0], SearchResult { title: "A".into(), url: "u1".into(), snippet: "d".into() });
    assert_eq!(hits[1], SearchResult { title: "".into(), url: "u2".into(), snippet: "".into() });
    assert!(brave.read(200, "{}", 5).unwrap().is_empty());
    assert!(brave.read(200, r#"{"web":null}"#, 5).unwrap().is_empty());
    let tavily = HttpSearch::new(SearchProviderKind::Tavily, "key", "").unwrap();
    let hits = tavily.read(200, r#"{"results":[{"url":"u","content":"c"}]}"#, 5).unwrap();
    assert_eq!(hits[0].snippet, "c");
    assert!(tavily.read(200, "{}", 5).unwrap().is_empty());
}

#[test]
fn answers_that_are_no_results_are_errors() {
    let tavily = HttpSearch::new(SearchProviderKind::Tavily, "key", "").unwrap();
    let err = tavily.read(500, &"x".repeat(400), 5).unwrap_err();
    assert_eq!(err.kind, ApiErrorKind::Provider);
    assert_eq!(
        err.message,
        format!("search provider returned HTTP 500: {}…", "x".repeat(299))
    );
    for body in ["not json", "7", r#"{"results":7}"#, r#"{"results":[7]}"#] {
        let err = tavily.read(200, body, 5).unwrap_err();
        assert_eq!(err.kind, ApiErrorKind::Protocol);
        assert!(err.message.starts_with("search provider response is not understood: "));
    }
    assert_eq!(transport_error("reset").message, "search request failed: reset");
}

#[test]
fn only_web_addresses_are_fetched() {
    assert!(check_url("https://example.test/a?b=c").is_ok());
    assert!(check_url("HTTP://example.test").is_ok());
    let err = check_url("file:///etc/passwd").unwrap_err();
    assert_eq!(err.kind, ApiErrorKind::Protocol);
    assert_eq!(err.message, "refusing to fetch non-http(s) url \"file:///etc/passwd\"");
    let err = check_url("not a url").unwrap_err();
    assert!(err.message.starts_with("bad result url \"not a url\": "));
    assert!(check_status("u", 204).is_ok());
    assert_eq!(check_status("u", 404).unwrap_err().message, "fetching u returned HTTP 404");
}

#[test]
fn a_page_is_read_up_to_a_bound() {
    let mut page = PageReader::new();
    assert!(page.wants_more());
    page.push(&b"<p>a</p>".to_vec());
    page.push(&vec![b'b'; MAX_FETCH_BYTES]);
    assert!(!page.wants_more());
    let text = page.text();
    assert_eq!(text.len(), MAX_PAGE_CHARS);
    assert!(text.starts_with("ab"));
}

#[test]
fn text_is_collapsed_and_decoded() {
    assert_eq!(strip_html("  a\n\t b&nbsp;c <br/> &lt;d&gt; &quot;&#39;"), "a b c <d> \"'");
    assert_eq!(strip_html("<SCRIPT>x</STYLE>y</SCRIPT>z"), "z");
    assert_eq!(strip_html("a <b unclosed"), "a");
    assert_eq!(decode_entities("&amp;lt;"), "<");
}

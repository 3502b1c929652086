use linkerd_policy::http_match::{
    HeaderMatchError, MatchHeader, MatchPath, MatchQueryParam, MatchRequest, PathMatch, QueryParamMatchError,
    RequestMatch,
};
use linkerd_policy::pattern::Pattern;
use linkerd_policy::rank::Ranked;
use linkerd_policy::request::{HeaderMap, Request, Uri};
use linkerd_policy::route::Match;

fn uri(s: &str) -> Uri {
    let u: http::Uri = s.parse().unwrap();
    Uri {
        scheme: u.scheme_str().map(String::from),
        host: u.host().map(String::from),
        port: u.port_u16(),
        path: u.path().to_string(),
        query: u.query().map(String::from),
    }
}

fn request(method: &str, u: &str, headers: &[(&str, &str)]) -> Request {
    let mut h = HeaderMap::new();
    for (n, v) in headers {
        h.append(n, v);
    }
    Request { method: method.to_string(), uri: uri(u), headers: h }
}

fn empty() -> MatchRequest {
    MatchRequest { path: None, headers: vec![], query_params: vec![], method: None }
}

// Empty matches apply to all requests.
#[test]
fn empty_match() {
    let m = empty();

    let req = request("GET", "/", &[]);
    assert_eq!(m.summarize_match(&req), Some(RequestMatch::default()));

    let req = request("HEAD", "/", &[]);
    assert_eq!(m.summarize_match(&req), Some(RequestMatch::default()));
}

#[test]
fn method() {
    let m = MatchRequest { method: Some("GET".to_string()), ..empty() };

    let req = request("GET", "http://example.com/foo", &[]);
    assert_eq!(m.summarize_match(&req), Some(RequestMatch { method: true, ..RequestMatch::default() }));

    let req = request("HEAD", "https://example.org/", &[]);
    assert_eq!(m.summarize_match(&req), None);
}

#[test]
fn headers() {
    let m = MatchRequest {
        headers: vec![
            MatchHeader::Exact("x-foo".to_string(), "bar".to_string()),
            MatchHeader::Regex("x-baz".to_string(), Pattern::new("qu+x").unwrap()),
        ],
        ..empty()
    };

    let req = request("GET", "http://example.com/foo", &[]);
    assert_eq!(m.summarize_match(&req), None);

    // invalid header value
    let req = request("GET", "https://example.org/", &[("x-foo", "bar"), ("x-baz", "zab")]);
    assert_eq!(m.summarize_match(&req), None);

    // Regex matches apply
    let req = request("GET", "https://example.org/", &[("x-foo", "bar"), ("x-baz", "quuuux")]);
    assert_eq!(m.summarize_match(&req), Some(RequestMatch { headers: 2, ..RequestMatch::default() }));

    // Regex must be anchored.
    let req = request("GET", "https://example.org/", &[("x-foo", "bar"), ("x-baz", "quxa")]);
    assert_eq!(m.summarize_match(&req), None);
}

#[test]
fn path() {
    let m = MatchRequest { path: Some(MatchPath::Exact("/foo/bar".to_string())), ..empty() };

    let req = request("GET", "http://example.com/foo", &[]);
    assert_eq!(m.summarize_match(&req), None);

    let req = request("GET", "https://example.org/foo/bar", &[]);
    assert_eq!(
        m.summarize_match(&req),
        Some(RequestMatch { path_match: PathMatch::Exact("/foo/bar".len()), ..RequestMatch::default() })
    );
}

#[test]
fn multiple() {
    let m = MatchRequest {
        path: Some(MatchPath::Exact("/foo/bar".to_string())),
        headers: vec![MatchHeader::Exact("x-foo".to_string(), "bar".to_string())],
        query_params: vec![MatchQueryParam::Exact("foo".to_string(), "bar".to_string())],
        method: Some("GET".to_string()),
    };

    let req = request("GET", "https://example.org/foo/bar?foo=bar", &[("x-foo", "bar")]);
    assert_eq!(
        m.summarize_match(&req),
        Some(RequestMatch {
            path_match: PathMatch::Exact("/foo/bar".len()),
            headers: 1,
            query_params: 1,
            method: true,
        })
    );

    // One invalid field (method) invalidates the match.
    let req = request("HEAD", "https://example.org/foo/bar?foo=bar", &[("x-foo", "bar")]);
    assert_eq!(m.summarize_match(&req), None);
}

#[test]
fn prefix_matches_at_segment_boundary() {
    let m = MatchPath::Prefix("/foo".to_string());
    assert_eq!(m.match_length("/foo"), Some(PathMatch::Prefix(4)));
    assert_eq!(m.match_length("/foo/bar"), Some(PathMatch::Prefix(4)));
    assert_eq!(m.match_length("/foobar"), None);
    assert_eq!(m.match_length("/fo"), None);
    let root = MatchPath::Prefix("/".to_string());
    assert_eq!(root.match_length("/anything"), Some(PathMatch::Prefix(1)));
}

#[test]
fn regex_path_is_anchored() {
    let m = MatchPath::Regex(Pattern::new("/foo/[a-z]+").unwrap());
    assert_eq!(m.match_length("/foo/bar"), Some(PathMatch::Regex(8)));
    assert_eq!(m.match_length("/foo/bar/1"), None);
    assert_eq!(m.match_length("/x/foo/bar"), None);
}

#[test]
fn invalid_pattern_is_refused() {
    assert!(Pattern::new("qu(x").is_none());
    assert_eq!(Pattern::new("qu+x").unwrap().as_str(), "qu+x");
}

#[test]
fn query_param_regex_and_missing_value() {
    let m = MatchQueryParam::Regex("id".to_string(), Pattern::new("[0-9]+").unwrap());
    assert!(m.is_match(&Some("a=b&id=42".to_string())));
    assert!(!m.is_match(&Some("id=42x".to_string())));
    assert!(!m.is_match(&None));
    let flag = MatchQueryParam::Exact("flag".to_string(), String::new());
    assert!(flag.is_match(&Some("x=1&flag".to_string())));
}

#[test]
fn summaries_rank_by_path_then_counts() {
    let exact = RequestMatch { path_match: PathMatch::Exact(4), ..RequestMatch::default() };
    let long_prefix = RequestMatch { path_match: PathMatch::Prefix(40), headers: 9, ..RequestMatch::default() };
    let regex = RequestMatch { path_match: PathMatch::Regex(2), ..RequestMatch::default() };
    assert!(long_prefix.is_below(&exact));
    assert!(long_prefix.is_below(&regex));
    assert!(regex.is_below(&exact));
    let more_headers = RequestMatch { headers: 1, ..RequestMatch::default() };
    let method = RequestMatch { method: true, ..RequestMatch::default() };
    assert!(method.is_below(&more_headers));
    assert!(!more_headers.is_below(&more_headers));
}

#[test]
fn header_names_ignore_case() {
    let m = MatchRequest { headers: vec![MatchHeader::Exact("X-Foo".to_string(), "bar".to_string())], ..empty() };
    let req = request("GET", "/", &[("x-foo", "bar")]);
    assert_eq!(m.summarize_match(&req), Some(RequestMatch { headers: 1, ..RequestMatch::default() }));
    let req = request("GET", "/", &[("x-foo", "BAR")]);
    assert_eq!(m.summarize_match(&req), None);
    let mut h = HeaderMap::new();
    h.append("Content-Type", "a");
    h.append("accept", "b");
    h.remove("content-type");
    assert_eq!(h.entries, vec![("accept".to_string(), "b".to_string())]);
}

#[test]
fn configured_matchers_are_validated() {
    assert!(matches!(
        MatchHeader::try_exact("x-foo".to_string(), "bar".to_string()),
        Ok(MatchHeader::Exact(n, v)) if n == "x-foo" && v == "bar"
    ));
    assert_eq!(
        MatchHeader::try_exact("x foo".to_string(), "bar".to_string()).err(),
        Some(HeaderMatchError::InvalidName)
    );
    assert_eq!(
        MatchHeader::try_exact("x-foo".to_string(), "b\nr".to_string()).err(),
        Some(HeaderMatchError::InvalidValue)
    );
    assert_eq!(MatchHeader::try_regex("x-foo".to_string(), "qu(x").err(), Some(HeaderMatchError::InvalidRegex));
    assert!(MatchHeader::try_regex("x-foo".to_string(), "qu+x").is_ok());
    assert_eq!(
        MatchQueryParam::try_exact(String::new(), "v".to_string()).err(),
        Some(QueryParamMatchError::MissingName)
    );
    assert_eq!(
        MatchQueryParam::try_regex("q".to_string(), "[").err(),
        Some(QueryParamMatchError::InvalidRegex)
    );
    assert!(MatchQueryParam::try_regex("q".to_string(), "[a-z]+").is_ok());
}

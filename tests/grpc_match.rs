use linkerd_policy::grpc_match::{MatchRoute, MatchRpc, RouteMatch, RpcMatch};
use linkerd_policy::http_match::MatchHeader;
use linkerd_policy::pattern::Pattern;
use linkerd_policy::request::{HeaderMap, Request, Uri};
use linkerd_policy::route::Match;

fn uri(s: &str) -> Uri {
    let u: http::Uri = s.parse().unwrap();
    Uri {
        scheme: u.scheme_str().map(String::from),
        host: u.host().map(String::from),
        port: u.port_u16(),
        path: u.path().to_string(),
        query: u.query().map(String::from),
    }
}

fn request(method: &str, u: &str, headers: &[(&str, &str)]) -> Request {
    let mut h = HeaderMap::new();
    for (n, v) in headers {
        h.append(n, v);
    }
    Request { method: method.to_string(), uri: uri(u), headers: h }
}

// Empty matches apply to all requests.
#[test]
fn match_empty_match() {
    let m = MatchRoute::default();

    let req = request("POST", "http://example.com/foo/bar", &[]);
    assert_eq!(m.summarize_match(&req), Some(RouteMatch::default()));

    let req = request("POST", "http://example.com/foo", &[]);
    assert_eq!(m.summarize_match(&req), None);
}

#[test]
fn match_method() {
    let m = MatchRoute {
        rpc: MatchRpc { service: None, method: Some("bar".to_string()) },
        ..MatchRoute::default()
    };

    let req = request("POST", "http://example.com/foo/bar", &[]);
    assert_eq!(
        m.summarize_match(&req),
        Some(RouteMatch { rpc: RpcMatch { service: 0, method: 3 }, ..Default::default() })
    );

    let req = request("POST", "https://example.org/foo/bah", &[]);
    assert_eq!(m.summarize_match(&req), None);
}

#[test]
fn match_headers() {
    let m = MatchRoute {
        headers: vec![
            MatchHeader::Exact("x-foo".to_string(), "bar".to_string()),
            MatchHeader::Regex("x-baz".to_string(), Pattern::new("qu+x").unwrap()),
        ],
        ..MatchRoute::default()
    };

    let req = request("POST", "http://example.com/foo", &[]);
    assert_eq!(m.summarize_match(&req), None);

    // invalid header value
    let req = request("POST", "https://example.org/", &[("x-foo", "bar"), ("x-baz", "zab")]);
    assert_eq!(m.summarize_match(&req), None);

    // Regex matches apply
    let req = request(
        "POST",
        "https://example.org/foo/bar",
        &[("x-foo", "bar"), ("x-baz", "quuuux")],
    );
    assert_eq!(m.summarize_match(&req), Some(RouteMatch { headers: 2, ..RouteMatch::default() }));

    // Regex must be anchored.
    let req = request(
        "POST",
        "https://example.org/foo/bar",
        &[("x-foo", "bar"), ("x-baz", "quxa")],
    );
    assert_eq!(m.summarize_match(&req), None);
}

#[test]
fn match_http_method() {
    let m = MatchRoute {
        rpc: MatchRpc { service: Some("foo".to_string()), method: Some("bar".to_string()) },
        headers: vec![],
    };

    let req = request("POST", "http://example.com/foo/bar", &[]);
    assert_eq!(
        m.summarize_match(&req),
        Some(RouteMatch { rpc: RpcMatch { service: 3, method: 3 }, headers: 0 })
    );

    let req = request("GET", "http://example.com/foo/bar", &[]);
    assert_eq!(m.summarize_match(&req), None);
}

#[test]
fn match_multiple() {
    let m = MatchRoute {
        rpc: MatchRpc { service: Some("foo".to_string()), method: Some("bar".to_string()) },
        headers: vec![MatchHeader::Exact("x-foo".to_string(), "bar".to_string())],
    };

    let req = request("POST", "https://example.org/foo/bar", &[("x-foo", "bar")]);
    assert_eq!(
        m.summarize_match(&req),
        Some(RouteMatch { rpc: RpcMatch { service: 3, method: 3 }, headers: 1 })
    );

    // One invalid field (header) invalidates the match.
    let req = request("POST", "https://example.org/foo/bar", &[("x-foo", "bah")]);
    assert_eq!(m.summarize_match(&req), None);
}

#[test]
fn rpc_path_needs_service_and_method() {
    let m = MatchRpc { service: Some("foo".to_string()), method: None };
    assert_eq!(m.match_length("/foo/bar/baz"), Some(RpcMatch { service: 3, method: 0 }));
    assert_eq!(m.match_length("/foo"), None);
    assert_eq!(m.match_length("foo/bar"), None);
    assert_eq!(m.match_length("/other/bar"), None);
}

#[test]
fn empty_rpc_names_match_any() {
    let m = MatchRpc::new(String::new(), "bar".to_string());
    assert!(m.service.is_none());
    assert_eq!(m.method.as_deref(), Some("bar"));
    assert_eq!(m.match_length("/any/bar"), Some(RpcMatch { service: 0, method: 3 }));
}

use linkerd_policy::authz::Meta;
use linkerd_policy::grpc_filter::{self, GrpcFilterOutcome, GrpcRouteFilter};
use linkerd_policy::http_filter::{
    apply_filters, ErrorResponderError, FilterOutcome, RequestHeaderModifierError, RequestRedirectError, HttpRouteFilter, InvalidRedirect, ModifyPath, ModifyRequestHeader,
    RedirectRequest, RespondWithError,
};
use linkerd_policy::http_match::{PathMatch, RequestMatch};
use linkerd_policy::request::{HeaderMap, Request, Uri};
use linkerd_policy::route::RouteMatch;

fn uri(s: &str) -> Uri {
    let u: http::Uri = s.parse().unwrap();
    Uri {
        scheme: u.scheme_str().map(String::from),
        host: u.host().map(String::from),
        port: u.port_u16(),
        path: u.path().to_string(),
        query: u.query().map(String::from),
    }
}

fn request(u: &str, headers: &[(&str, &str)]) -> Request {
    let mut h = HeaderMap::new();
    for (n, v) in headers {
        h.append(n, v);
    }
    Request { method: "GET".to_string(), uri: uri(u), headers: h }
}

fn matched(path_match: PathMatch) -> RouteMatch<RequestMatch> {
    RouteMatch { host: None, route: RequestMatch { path_match, ..RequestMatch::default() } }
}

fn meta() -> Meta {
    Meta { group: "gateway.networking.k8s.io".to_string(), kind: "HTTPRoute".to_string(), name: "r".to_string() }
}

fn redirect(path: Option<ModifyPath>) -> RedirectRequest {
    RedirectRequest { scheme: None, host: None, port: None, path, status: None }
}

fn entries(h: &HeaderMap) -> Vec<(&str, &str)> {
    h.entries.iter().map(|(n, v)| (n.as_str(), v.as_str())).collect()
}

#[test]
fn replace_prefix_redirect() {
    let r = redirect(Some(ModifyPath::ReplacePrefixMatch("/new".to_string())));
    let orig = uri("http://example.com/old/tail");
    let out = r.apply(&orig, &matched(PathMatch::Prefix("/old".len()))).unwrap().unwrap();
    assert_eq!(out.location.path, "/new/tail");
    assert_eq!(out.location.host.as_deref(), Some("example.com"));
    assert_eq!(out.location.scheme.as_deref(), Some("http"));
    assert_eq!(out.status, 301);

    let err = r.apply(&orig, &matched(PathMatch::Exact("/old/tail".len()))).err();
    assert_eq!(err, Some(InvalidRedirect::InvalidReplacePrefix));
    let err = r.apply(&uri("http://example.com/o"), &matched(PathMatch::Prefix(4))).err();
    assert_eq!(err, Some(InvalidRedirect::InvalidReplacePrefix));
}

#[test]
fn redirect_to_same_uri_is_ignored() {
    let r = redirect(None);
    assert!(r.apply(&uri("http://example.com/a"), &matched(PathMatch::Prefix(1))).unwrap().is_none());
    let same_host = RedirectRequest { host: Some("example.com".to_string()), ..redirect(None) };
    assert!(same_host.apply(&uri("http://example.com/a"), &matched(PathMatch::Prefix(1))).unwrap().is_none());

    // A request without a scheme is sent to the `http` one.
    let mut no_scheme = uri("http://example.com/a");
    no_scheme.scheme = None;
    let out = r.apply(&no_scheme, &matched(PathMatch::Prefix(1))).unwrap().unwrap();
    assert_eq!(out.location.scheme.as_deref(), Some("http"));

    // The pipeline runs on past an ignored redirect.
    let filters = vec![
        HttpRouteFilter::Redirect(redirect(None)),
        HttpRouteFilter::RequestHeaders(ModifyRequestHeader {
            add: vec![("x-a".to_string(), "1".to_string())],
            set: vec![],
            remove: vec![],
        }),
    ];
    let mut req = request("http://example.com/a", &[]);
    assert!(apply_filters(&filters, &meta(), &matched(PathMatch::Prefix(1)), &mut req).is_ok());
    assert_eq!(entries(&req.headers), vec![("x-a", "1")]);
}

#[test]
fn redirect_overrides_and_errors() {
    let r = RedirectRequest {
        scheme: Some("https".to_string()),
        host: None,
        port: Some(8443),
        path: Some(ModifyPath::ReplaceFullPath("/login".to_string())),
        status: Some(302),
    };
    let out = r.apply(&uri("http://example.com:8080/x?y=1"), &matched(PathMatch::Prefix(1))).unwrap().unwrap();
    assert_eq!(out.status, 302);
    assert_eq!(out.location.scheme.as_deref(), Some("https"));
    assert_eq!(out.location.host.as_deref(), Some("example.com"));
    assert_eq!(out.location.port, Some(8443));
    assert_eq!(out.location.path, "/login");

    // The query is part of the URI that a redirect is compared with.
    let out = redirect(None).apply(&uri("http://example.com/x?y=1"), &matched(PathMatch::Prefix(1)));
    assert_eq!(out.unwrap().unwrap().location.path, "/x");

    let mut no_host = uri("/x");
    no_host.host = None;
    assert_eq!(
        redirect(None).apply(&no_host, &matched(PathMatch::Prefix(1))).err(),
        Some(InvalidRedirect::MissingAuthority)
    );
    let bad_host = RedirectRequest { host: Some("exa mple.com".to_string()), ..redirect(None) };
    assert_eq!(
        bad_host.apply(&uri("http://example.com/x"), &matched(PathMatch::Prefix(1))).err(),
        Some(InvalidRedirect::InvalidAuthority)
    );
    let bad_path = redirect(Some(ModifyPath::ReplaceFullPath("/a b".to_string())));
    assert_eq!(
        bad_path.apply(&uri("http://example.com/x"), &matched(PathMatch::Prefix(1))).err(),
        Some(InvalidRedirect::InvalidLocation)
    );
}

#[test]
fn header_modifier_sets_adds_then_removes() {
    let m = ModifyRequestHeader {
        add: vec![("x-add".to_string(), "2".to_string()), ("x-set".to_string(), "extra".to_string())],
        set: vec![("x-set".to_string(), "one".to_string())],
        remove: vec!["x-gone".to_string()],
    };
    let mut h = HeaderMap::new();
    h.append("x-set", "old1");
    h.append("x-add", "1");
    h.append("x-gone", "a");
    h.append("x-set", "old2");
    h.append("x-gone", "b");
    m.apply(&mut h);
    assert_eq!(entries(&h), vec![("x-add", "1"), ("x-set", "one"), ("x-add", "2"), ("x-set", "extra")]);
}

#[test]
fn header_map_operations() {
    let mut h = HeaderMap::new();
    h.append("a", "1");
    h.append("b", "2");
    h.append("a", "3");
    h.insert("a", "4");
    assert_eq!(entries(&h), vec![("b", "2"), ("a", "4")]);
    h.remove("b");
    assert_eq!(entries(&h), vec![("a", "4")]);
}

#[test]
fn error_and_unknown_filters_stop_the_request() {
    let filters = vec![
        HttpRouteFilter::Error(RespondWithError { status: 503, message: "down".to_string() }),
        HttpRouteFilter::Unknown,
    ];
    let mut req = request("http://example.com/", &[]);
    match apply_filters(&filters, &meta(), &matched(PathMatch::Prefix(1)), &mut req) {
        Err(FilterOutcome::ErrorResponse(e)) => {
            assert_eq!(e.status, 503);
            assert_eq!(e.message, "down");
        },
        _ => panic!("expected an error response"),
    }
    match apply_filters(&vec![HttpRouteFilter::Unknown], &meta(), &matched(PathMatch::Prefix(1)), &mut req) {
        Err(FilterOutcome::UnknownFilter(m)) => assert_eq!(m.kind, "HTTPRoute"),
        _ => panic!("expected an unknown filter"),
    }
    let redirecting = vec![HttpRouteFilter::Redirect(RedirectRequest {
        host: Some("other.example.com".to_string()),
        ..redirect(None)
    })];
    match apply_filters(&redirecting, &meta(), &matched(PathMatch::Prefix(1)), &mut req) {
        Err(FilterOutcome::Redirect(r)) => assert_eq!(r.location.host.as_deref(), Some("other.example.com")),
        _ => panic!("expected a redirect"),
    }
    let invalid = vec![HttpRouteFilter::Redirect(redirect(Some(ModifyPath::ReplacePrefixMatch("/n".to_string()))))];
    match apply_filters(&invalid, &meta(), &matched(PathMatch::Exact(1)), &mut req) {
        Err(FilterOutcome::InvalidRedirect(e)) => assert_eq!(e, InvalidRedirect::InvalidReplacePrefix),
        _ => panic!("expected an invalid redirect"),
    }
}

#[test]
fn grpc_filters() {
    let filters = vec![
        GrpcRouteFilter::RequestHeaders(ModifyRequestHeader {
            add: vec![],
            set: vec![("x-a".to_string(), "1".to_string())],
            remove: vec![],
        }),
        GrpcRouteFilter::Error(grpc_filter::RespondWithError { code: 14, message: "unavailable".to_string() }),
    ];
    let mut req = request("http://example.com/svc/m", &[]);
    match grpc_filter::apply_filters(&filters, &meta(), &mut req) {
        Err(GrpcFilterOutcome::ErrorResponse(e)) => assert_eq!(e.code, 14),
        _ => panic!("expected an error response"),
    }
    assert_eq!(entries(&req.headers), vec![("x-a", "1")]);
    assert!(matches!(
        grpc_filter::apply_filters(&vec![GrpcRouteFilter::Unknown], &meta(), &mut req),
        Err(GrpcFilterOutcome::UnknownFilter(_))
    ));
    assert!(grpc_filter::apply_filters(&vec![], &meta(), &mut req).is_ok());
}

#[test]
fn configured_redirects_are_validated() {
    let r = RedirectRequest::try_new(None, String::new(), 0, None, 0).ok().unwrap();
    assert!(r.host.is_none() && r.port.is_none() && r.status.is_none());
    let r = RedirectRequest::try_new(None, "h".to_string(), 8080, None, 302).ok().unwrap();
    assert_eq!(r.host.as_deref(), Some("h"));
    assert_eq!(r.port, Some(8080));
    assert_eq!(r.status, Some(302));
    assert_eq!(
        RedirectRequest::try_new(None, String::new(), 70000, None, 0).err(),
        Some(RequestRedirectError::InvalidPort(70000))
    );
    assert_eq!(
        RedirectRequest::try_new(None, String::new(), 0, None, 42).err(),
        Some(RequestRedirectError::InvalidStatus(42))
    );
    assert_eq!(
        RedirectRequest::try_new(None, String::new(), 0, None, 600).err(),
        Some(RequestRedirectError::InvalidStatusNonU16(600))
    );
}

#[test]
fn configured_error_responders_are_validated() {
    let e = RespondWithError::try_new(503, "x".to_string()).ok().unwrap();
    assert_eq!(e.status, 503);
    assert_eq!(RespondWithError::try_new(99, String::new()).err(), Some(ErrorResponderError::InvalidStatus(99)));
    assert_eq!(
        RespondWithError::try_new(70000, String::new()).err(),
        Some(ErrorResponderError::InvalidStatusNonU16(70000))
    );
    let g = grpc_filter::RespondWithError::try_new(14, "u".to_string()).ok().unwrap();
    assert_eq!(g.code, 14);
    assert_eq!(
        grpc_filter::RespondWithError::try_new(65536, String::new()).err(),
        Some(grpc_filter::ErrorResponderError::InvalidStatusNonU16(65536))
    );
}

#[test]
fn configured_header_modifiers_are_validated() {
    let ok = ModifyRequestHeader::try_new(
        vec![("x-a".to_string(), "1".to_string())],
        vec![],
        vec!["x-b".to_string()],
    );
    assert!(ok.is_ok());
    let bad_name = ModifyRequestHeader::try_new(vec![("bad name".to_string(), "1".to_string())], vec![], vec![]);
    assert_eq!(bad_name.err(), Some(RequestHeaderModifierError::InvalidName));
    let bad_value = ModifyRequestHeader::try_new(vec![], vec![("x-a".to_string(), "a\nb".to_string())], vec![]);
    assert_eq!(bad_value.err(), Some(RequestHeaderModifierError::InvalidValue));
    let bad_remove = ModifyRequestHeader::try_new(vec![], vec![], vec!["x:y".to_string()]);
    assert_eq!(bad_remove.err(), Some(RequestHeaderModifierError::InvalidName));
}

use linkerd_policy::authz::{with_loopback, Addr, Authentication, Authorization, Cidr, ClientTls, Meta, Network};
use linkerd_policy::grpc_filter::{GrpcFilterOutcome, GrpcRouteFilter, RespondWithError};
use linkerd_policy::grpc_match::{MatchRoute, MatchRpc};
use linkerd_policy::host::MatchHost;
use linkerd_policy::http_filter::{FilterOutcome, HttpRouteFilter, ModifyRequestHeader};
use linkerd_policy::http_match::{MatchPath, MatchRequest};
use linkerd_policy::policy::{
    check_grpc, check_http, GrpcConfig, GrpcRouteError, HttpConfig, HttpRouteError, Protocol, RoutePolicy,
    Routes, ServerPolicy,
};
use linkerd_policy::request::{HeaderMap, Request, Uri};
use linkerd_policy::route::{Route, Rule};

fn meta(name: &str) -> Meta {
    Meta { group: "policy.linkerd.io".to_string(), kind: "HTTPRoute".to_string(), name: name.to_string() }
}

fn request(method: &str, host: &str, path: &str) -> Request {
    Request {
        method: method.to_string(),
        uri: Uri {
            scheme: Some("http".to_string()),
            host: Some(host.to_string()),
            port: None,
            path: path.to_string(),
            query: None,
        },
        headers: HeaderMap::new(),
    }
}

fn tls_only() -> Authorization {
    Authorization {
        networks: vec![Network { net: Cidr::new(Addr::V4(0), 0).unwrap(), except: vec![] }],
        authentication: Authentication::TlsUnauthenticated,
        meta: meta("tls"),
    }
}

fn http_routes(filters: Vec<HttpRouteFilter>) -> Vec<linkerd_policy::policy::HttpRoute> {
    vec![Route {
        hosts: vec![MatchHost::parse("*.example.com")],
        rules: vec![Rule {
            matches: vec![MatchRequest {
                path: Some(MatchPath::Prefix("/api".to_string())),
                headers: vec![],
                query_params: vec![],
                method: None,
            }],
            policy: RoutePolicy { meta: meta("api"), authorizations: with_loopback(vec![tls_only()]), filters },
        }],
    }]
}

#[test]
fn http_request_decisions() {
    let add = HttpRouteFilter::RequestHeaders(ModifyRequestHeader {
        add: vec![],
        set: vec![("l5d-route".to_string(), "api".to_string())],
        remove: vec![],
    });
    let routes = http_routes(vec![add]);
    let tls = ClientTls::Established { client_id: None };
    let client = Addr::V4(0x0a00_0001);

    let mut req = request("GET", "web.example.com", "/api/users");
    let permit = check_http(&routes, client, &tls, &mut req).ok().expect("permitted");
    assert_eq!(permit.route.name, "api");
    assert_eq!(permit.authz.name, "tls");
    assert_eq!(req.headers.entries, vec![("l5d-route".to_string(), "api".to_string())]);

    let mut req = request("GET", "web.example.com", "/other");
    assert!(matches!(check_http(&routes, client, &tls, &mut req), Err(HttpRouteError::NotFound)));

    let mut req = request("GET", "web.example.org", "/api");
    assert!(matches!(check_http(&routes, client, &tls, &mut req), Err(HttpRouteError::NotFound)));

    let mut req = request("GET", "web.example.com", "/api");
    assert!(matches!(check_http(&routes, client, &ClientTls::NoTls, &mut req), Err(HttpRouteError::Unauthorized)));
    assert!(req.headers.entries.is_empty());

    // Local clients need no TLS.
    let mut req = request("GET", "web.example.com", "/api");
    let permit = check_http(&routes, Addr::V4(0x7f00_0001), &ClientTls::NoTls, &mut req).ok().unwrap();
    assert_eq!(permit.authz.name, "localhost");

    let routes = http_routes(vec![HttpRouteFilter::Unknown]);
    let mut req = request("GET", "web.example.com", "/api");
    match check_http(&routes, client, &tls, &mut req) {
        Err(HttpRouteError::Filtered(FilterOutcome::UnknownFilter(m))) => assert_eq!(m.name, "api"),
        _ => panic!("expected an unknown filter"),
    }
}

#[test]
fn grpc_request_decisions() {
    let routes = vec![Route {
        hosts: vec![],
        rules: vec![Rule {
            matches: vec![MatchRoute {
                rpc: MatchRpc { service: Some("pkg.Svc".to_string()), method: None },
                headers: vec![],
            }],
            policy: RoutePolicy {
                meta: meta("grpc"),
                authorizations: with_loopback(vec![]),
                filters: vec![GrpcRouteFilter::Error(RespondWithError { code: 7, message: "denied".to_string() })],
            },
        }],
    }];
    let mut req = request("POST", "svc", "/pkg.Svc/Call");
    match check_grpc(&routes, Addr::V6(1), &ClientTls::NoTls, &mut req) {
        Err(GrpcRouteError::Filtered(GrpcFilterOutcome::ErrorResponse(e))) => assert_eq!(e.code, 7),
        _ => panic!("expected an error response"),
    }
    let mut req = request("POST", "svc", "/pkg.Svc/Call");
    assert!(matches!(
        check_grpc(&routes, Addr::V4(0x0a00_0001), &ClientTls::NoTls, &mut req),
        Err(GrpcRouteError::Unauthorized)
    ));
    let mut req = request("GET", "svc", "/pkg.Svc/Call");
    assert!(matches!(check_grpc(&routes, Addr::V6(1), &ClientTls::NoTls, &mut req), Err(GrpcRouteError::NotFound)));
}

#[test]
fn protocol_selects_routes() {
    let server = |protocol| ServerPolicy { protocol, authorizations: with_loopback(vec![]), meta: meta("server") };
    let detect = server(Protocol::Detect { http: HttpConfig::new(), timeout_ms: 10_000 });
    assert!(matches!(detect.routes(), Some(Routes::Http(rs)) if rs.is_empty()));
    assert!(matches!(server(Protocol::Http1(HttpConfig::new())).routes(), Some(Routes::Http(_))));
    assert!(matches!(server(Protocol::Http2(HttpConfig::new())).routes(), Some(Routes::Http(_))));
    assert!(matches!(server(Protocol::Grpc(GrpcConfig::new())).routes(), Some(Routes::Grpc(_))));
    let opaque = server(Protocol::Opaque);
    assert!(opaque.routes().is_none());
    assert!(server(Protocol::Tls).routes().is_none());
    let permit = opaque.authorize_connection(Addr::V4(0x7f00_0001), &ClientTls::NoTls).ok().unwrap();
    assert_eq!(permit.route.name, "server");
    assert!(opaque.authorize_connection(Addr::V4(0x0a00_0001), &ClientTls::NoTls).is_err());
}


//! A server's policy snapshot, and the per-request decision: route, then
//! authorize, then filter.
use vstd::prelude::*;
use crate::authz::{
    any_authorizes, authorize, is_first_authorized, Addr, Authorization, ClientTls,
    HttpRouteUnauthorized, Meta, RoutePermit,
};
use crate::grpc_filter::{self, GrpcFilterOutcome, GrpcRouteFilter};
use crate::grpc_match::MatchRoute;
use crate::http_filter::{self, FilterOutcome, HttpRouteFilter};
use crate::http_match::MatchRequest;
use crate::request::Request;
use crate::route::{find, spec_find, Route};

verus! {

/// What a matched rule applies: its labels, who may use it, and its filters.
pub struct RoutePolicy<F> {
    pub meta: Meta,
    pub authorizations: Vec<Authorization>,
    pub filters: Vec<F>,
}

pub type HttpRoute = Route<MatchRequest, RoutePolicy<HttpRouteFilter>>;

pub type GrpcRoute = Route<MatchRoute, RoutePolicy<GrpcRouteFilter>>;

/// The HTTP routes of a server.
pub struct HttpConfig {
    pub routes: Vec<HttpRoute>,
}

/// The gRPC routes of a server.
pub struct GrpcConfig {
    pub routes: Vec<GrpcRoute>,
}

/// The protocol a server speaks, with its routes.
pub enum Protocol {
    /// The protocol is detected per connection, within the timeout; HTTP
    /// connections use the routes given.
    Detect { http: HttpConfig, timeout_ms: u64 },
    Http1(HttpConfig),
    Http2(HttpConfig),
    Grpc(GrpcConfig),
    /// Opaque traffic: only the server's own authorizations apply.
    Opaque,
    /// TLS passed through: only the server's own authorizations apply.
    Tls,
}

/// The policy of one inbound server, replaced whole on update.
pub struct ServerPolicy {
    pub protocol: Protocol,
    pub authorizations: Vec<Authorization>,
    pub meta: Meta,
}

/// The route set that requests on a server are routed by.
pub enum Routes<'a> {
    Http(&'a Vec<HttpRoute>),
    Grpc(&'a Vec<GrpcRoute>),
}

impl HttpConfig {
    pub fn new() -> (r: HttpConfig)
        ensures
            r.routes@.len() == 0,
    {
        HttpConfig { routes: Vec::new() }
    }
}

impl GrpcConfig {
    pub fn new() -> (r: GrpcConfig)
        ensures
            r.routes@.len() == 0,
    {
        GrpcConfig { routes: Vec::new() }
    }
}

impl ServerPolicy {
    /// The routes that requests are routed by: those of the HTTP or gRPC
    /// configuration; none for opaque and TLS servers.
    pub fn routes(&self) -> (r: Option<Routes<'_>>)
        ensures
            match self.protocol {
                Protocol::Detect { http, .. } => r matches Some(Routes::Http(rs)) && *rs
                    == http.routes,
                Protocol::Http1(http) => r matches Some(Routes::Http(rs)) && *rs == http.routes,
                Protocol::Http2(http) => r matches Some(Routes::Http(rs)) && *rs == http.routes,
                Protocol::Grpc(grpc) => r matches Some(Routes::Grpc(rs)) && *rs == grpc.routes,
                Protocol::Opaque => r is None,
                Protocol::Tls => r is None,
            },
    {
        match &self.protocol {
            Protocol::Detect { http, .. } => Some(Routes::Http(&http.routes)),
            Protocol::Http1(http) => Some(Routes::Http(&http.routes)),
            Protocol::Http2(http) => Some(Routes::Http(&http.routes)),
            Protocol::Grpc(grpc) => Some(Routes::Grpc(&grpc.routes)),
            Protocol::Opaque => None,
            Protocol::Tls => None,
        }
    }

    /// Admits a connection by the server's own authorizations.
    pub fn authorize_connection(&self, client: Addr, tls: &ClientTls) -> (r: Result<
        RoutePermit,
        HttpRouteUnauthorized,
    >)
        ensures
            r is Ok == any_authorizes(self.authorizations@, client, *tls),
            r matches Ok(p) ==> p.route == self.meta && exists|i: int|
                is_first_authorized(self.authorizations@, client, *tls, i) && p.authz
                    == self.authorizations@[i].meta,
    {
        authorize(&self.authorizations, &self.meta, client, tls)
    }
}

/// Why an HTTP request was not let through.
pub enum HttpRouteError {
    /// No route applies to the request.
    NotFound,
    /// A route applies, but none of its authorizations admits the client.
    Unauthorized,
    /// A filter of the route answered the request.
    Filtered(FilterOutcome),
}

/// Why a gRPC request was not let through.
pub enum GrpcRouteError {
    NotFound,
    Unauthorized,
    Filtered(GrpcFilterOutcome),
}

/// Decides an HTTP request: selects its route, admits the client by the
/// route's authorizations, then runs the route's filters, which may rewrite
/// the request's headers. On success, the labels of the permit.
pub fn check_http(routes: &Vec<HttpRoute>, client: Addr, tls: &ClientTls, req: &mut Request) -> (r:
    Result<RoutePermit, HttpRouteError>)
    ensures
        final(req).method == old(req).method,
        final(req).uri == old(req).uri,
        match spec_find(routes@, old(req)@) {
            None => r matches Err(HttpRouteError::NotFound) && *final(req) == *old(req),
            Some((m, i, j)) => {
                let pol = routes@[i].rules@[j].policy;
                if !any_authorizes(pol.authorizations@, client, *tls) {
                    r matches Err(HttpRouteError::Unauthorized) && *final(req) == *old(req)
                } else {
                    let (h, o) = http_filter::spec_filters(
                        pol.filters@,
                        pol.meta,
                        m.route,
                        old(req)@.uri,
                        old(req)@.headers,
                    );
                    &&& final(req)@.headers == h
                    &&& match o {
                        Ok(()) => r matches Ok(p) && p.route == pol.meta && exists|a: int|
                            is_first_authorized(pol.authorizations@, client, *tls, a) && p.authz
                                == pol.authorizations@[a].meta,
                        Err(v) => r matches Err(HttpRouteError::Filtered(f)) && f@ == v,
                    }
                }
            },
        },
{
    let (rm, policy) = match find(routes, req) {
        Some(found) => found,
        None => return Err(HttpRouteError::NotFound),
    };
    let permit = match authorize(&policy.authorizations, &policy.meta, client, tls) {
        Ok(p) => p,
        Err(_) => return Err(HttpRouteError::Unauthorized),
    };
    match http_filter::apply_filters(&policy.filters, &policy.meta, &rm, req) {
        Ok(()) => Ok(permit),
        Err(f) => Err(HttpRouteError::Filtered(f)),
    }
}

/// Decides a gRPC request as `check_http` does an HTTP one.
pub fn check_grpc(routes: &Vec<GrpcRoute>, client: Addr, tls: &ClientTls, req: &mut Request) -> (r:
    Result<RoutePermit, GrpcRouteError>)
    ensures
        final(req).method == old(req).method,
        final(req).uri == old(req).uri,
        match spec_find(routes@, old(req)@) {
            None => r matches Err(GrpcRouteError::NotFound) && *final(req) == *old(req),
            Some((m, i, j)) => {
                let pol = routes@[i].rules@[j].policy;
                if !any_authorizes(pol.authorizations@, client, *tls) {
                    r matches Err(GrpcRouteError::Unauthorized) && *final(req) == *old(req)
                } else {
                    let (h, o) = grpc_filter::spec_filters(
                        pol.filters@,
                        pol.meta,
                        old(req)@.headers,
                    );
                    &&& final(req)@.headers == h
                    &&& match o {
                        Ok(()) => r matches Ok(p) && p.route == pol.meta && exists|a: int|
                            is_first_authorized(pol.authorizations@, client, *tls, a) && p.authz
                                == pol.authorizations@[a].meta,
                        Err(v) => r matches Err(GrpcRouteError::Filtered(f)) && f == v,
                    }
                }
            },
        },
{
    let (_rm, policy) = match find(routes, req) {
        Some(found) => found,
        None => return Err(GrpcRouteError::NotFound),
    };
    let permit = match authorize(&policy.authorizations, &policy.meta, client, tls) {
        Ok(p) => p,
        Err(_) => return Err(GrpcRouteError::Unauthorized),
    };
    match grpc_filter::apply_filters(&policy.filters, &policy.meta, req) {
        Ok(()) => Ok(permit),
        Err(f) => Err(GrpcRouteError::Filtered(f)),
    }
}

} // verus!

//! Matching gRPC requests: the RPC's service and method, and headers.
use vstd::prelude::*;
use crate::http_match::MatchHeader;
use crate::rank::{lex_lt, Ranked};
use crate::request::{HeadersView, Request, RequestView};
use crate::route::Match;
use crate::text::{same_text, split, split_spec, views};

verus! {

/// A gRPC call is an HTTP `POST`.
pub open spec fn is_post(method: Seq<char>) -> bool {
    method == seq!['P', 'O', 'S', 'T']
}

/// Matches an RPC's service and method names; an absent name matches any.
pub struct MatchRpc {
    pub service: Option<String>,
    pub method: Option<String>,
}

/// The lengths of the service and method names that matched; 0 for a name
/// that was not constrained.
#[derive(Clone, Copy, Debug, PartialEq, Eq, Structural)]
pub struct RpcMatch {
    pub service: usize,
    pub method: usize,
}

/// A gRPC request matcher.
pub struct MatchRoute {
    pub rpc: MatchRpc,
    pub headers: Vec<MatchHeader>,
}

/// How a gRPC request matched: compared by service, then method, then the
/// number of headers matched.
#[derive(Clone, Copy, Debug, PartialEq, Eq, Structural)]
pub struct RouteMatch {
    pub rpc: RpcMatch,
    pub headers: usize,
}

impl Default for RpcMatch {
    fn default() -> (r: RpcMatch)
        ensures
            r == (RpcMatch { service: 0, method: 0 }),
    {
        RpcMatch { service: 0, method: 0 }
    }
}

impl Default for RouteMatch {
    fn default() -> (r: RouteMatch)
        ensures
            r == (RouteMatch { rpc: RpcMatch { service: 0, method: 0 }, headers: 0 }),
    {
        RouteMatch { rpc: RpcMatch { service: 0, method: 0 }, headers: 0 }
    }
}

impl Default for MatchRpc {
    fn default() -> (r: MatchRpc)
        ensures
            r.service is None,
            r.method is None,
    {
        MatchRpc { service: None, method: None }
    }
}

impl Default for MatchRoute {
    fn default() -> (r: MatchRoute)
        ensures
            r.rpc.service is None,
            r.rpc.method is None,
            r.headers@.len() == 0,
    {
        MatchRoute { rpc: MatchRpc { service: None, method: None }, headers: Vec::new() }
    }
}

pub open spec fn name_applies(name: Option<String>, part: Seq<char>) -> bool {
    match name {
        Some(n) => n@ == part,
        None => true,
    }
}

pub open spec fn name_len(name: Option<String>) -> usize {
    match name {
        Some(n) => n@.len() as usize,
        None => 0,
    }
}

impl MatchRpc {
    /// A matcher from configured names, where an empty name matches any.
    pub fn new(service: String, method: String) -> (r: MatchRpc)
        ensures
            if service@.len() == 0 {
                r.service is None
            } else {
                r.service == Some(service)
            },
            if method@.len() == 0 {
                r.method is None
            } else {
                r.method == Some(method)
            },
    {
        let service = if service.as_str().unicode_len() == 0 {
            None
        } else {
            Some(service)
        };
        let method = if method.as_str().unicode_len() == 0 {
            None
        } else {
            Some(method)
        };
        MatchRpc { service, method }
    }

    /// A gRPC path reads `/service/method`; the names given must equal those
    /// parts.
    pub open spec fn spec_match_length(&self, path: Seq<char>) -> Option<RpcMatch> {
        let parts = split_spec(path, '/');
        if parts.len() >= 3 && parts[0].len() == 0 && name_applies(self.service, parts[1])
            && name_applies(self.method, parts[2]) {
            Some(RpcMatch { service: name_len(self.service), method: name_len(self.method) })
        } else {
            None
        }
    }

    fn part_applies(name: &Option<String>, part: &String) -> (r: Option<usize>)
        ensures
            r is Some == name_applies(*name, part@),
            r matches Some(n) ==> n == name_len(*name),
    {
        match name {
            Some(n) => {
                if same_text(n.as_str(), part.as_str()) {
                    Some(n.as_str().unicode_len())
                } else {
                    None
                }
            },
            None => Some(0),
        }
    }

    pub fn match_length(&self, path: &str) -> (r: Option<RpcMatch>)
        ensures
            r == self.spec_match_length(path@),
    {
        let parts = split(path, '/');
        if parts.len() < 3 {
            return None;
        }
        proof {
            assert(views(parts@)[0] == parts@[0]@);
            assert(views(parts@)[1] == parts@[1]@);
            assert(views(parts@)[2] == parts@[2]@);
        }
        if parts[0].as_str().unicode_len() != 0 {
            return None;
        }
        let service = match Self::part_applies(&self.service, &parts[1]) {
            Some(n) => n,
            None => return None,
        };
        let method = match Self::part_applies(&self.method, &parts[2]) {
            Some(n) => n,
            None => return None,
        };
        Some(RpcMatch { service, method })
    }
}

impl Ranked for RouteMatch {
    open spec fn rank(&self) -> Seq<int> {
        seq![self.rpc.service as int, self.rpc.method as int, self.headers as int]
    }

    fn is_below(&self, other: &Self) -> (r: bool) {
        proof {
            reveal_with_fuel(lex_lt, 4);
            let a = self.rank();
            let b = other.rank();
            assert(a.drop_first() =~= seq![a[1], a[2]]);
            assert(b.drop_first() =~= seq![b[1], b[2]]);
            assert(a.drop_first().drop_first() =~= seq![a[2]]);
            assert(b.drop_first().drop_first() =~= seq![b[2]]);
            assert(seq![a[2]].drop_first().len() == 0);
            assert(seq![b[2]].drop_first().len() == 0);
        }
        if self.rpc.service != other.rpc.service {
            self.rpc.service < other.rpc.service
        } else if self.rpc.method != other.rpc.method {
            self.rpc.method < other.rpc.method
        } else {
            self.headers < other.headers
        }
    }
}

impl MatchRoute {
    pub open spec fn headers_apply(&self, headers: HeadersView) -> bool {
        forall|k: int| 0 <= k < self.headers@.len() ==> #[trigger] self.headers@[k].spec_applies(headers)
    }
}

impl Match for MatchRoute {
    type Summary = RouteMatch;

    open spec fn spec_match(&self, req: RequestView) -> Option<RouteMatch> {
        if is_post(req.method) && self.rpc.spec_match_length(req.uri.path) is Some
            && self.headers_apply(req.headers) {
            Some(
                RouteMatch {
                    rpc: self.rpc.spec_match_length(req.uri.path)->0,
                    headers: self.headers@.len() as usize,
                },
            )
        } else {
            None
        }
    }

    open spec fn spec_default() -> RouteMatch {
        RouteMatch { rpc: RpcMatch { service: 0, method: 0 }, headers: 0 }
    }

    fn summarize_match(&self, req: &Request) -> (r: Option<RouteMatch>) {
        proof {
            reveal_strlit("POST");
            assert("POST"@ =~= seq!['P', 'O', 'S', 'T']);
        }
        if !same_text(req.method.as_str(), "POST") {
            return None;
        }
        let rpc = match self.rpc.match_length(req.uri.path.as_str()) {
            Some(m) => m,
            None => return None,
        };
        let mut k: usize = 0;
        while k < self.headers.len()
            invariant
                k <= self.headers@.len(),
                forall|j: int| 0 <= j < k ==> #[trigger] self.headers@[j].spec_applies(req@.headers),
            decreases self.headers@.len() - k,
        {
            if !self.headers[k].is_match(&req.headers) {
                return None;
            }
            k = k + 1;
        }
        Some(RouteMatch { rpc, headers: self.headers.len() })
    }

    fn default_summary() -> (r: RouteMatch) {
        RouteMatch { rpc: RpcMatch { service: 0, method: 0 }, headers: 0 }
    }
}

} // verus!

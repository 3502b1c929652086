//! Route selection: the most specific (host, rule) pair for a request, the
//! earliest declared on ties.
use vstd::prelude::*;
use crate::host::{host_rank, HostMatch, MatchHost};
use crate::rank::{
    best_of, first_best, keep_best, lemma_lex_concat, lemma_lex_irreflexive, lemma_lex_total,
    lemma_scanned_done, lemma_scanned_start, lex_lt, ranks_of, scanned, Ranked,
};
use crate::request::{opt_text, Request, RequestView};

verus! {

/// A way of matching requests, which summarizes how specifically a request
/// matched.
pub trait Match {
    type Summary: Ranked;

    spec fn spec_match(&self, req: RequestView) -> Option<Self::Summary>;

    /// The summary of a rule that lists no matches and so applies to every
    /// request.
    spec fn spec_default() -> Self::Summary;

    fn summarize_match(&self, req: &Request) -> (r: Option<Self::Summary>)
        ensures
            r == self.spec_match(req@),
    ;

    fn default_summary() -> (r: Self::Summary)
        ensures
            r == Self::spec_default(),
    ;
}

/// Rules grouped under a common set of host names.
pub struct Route<M, P> {
    /// The host names the route applies to; empty means every host.
    pub hosts: Vec<MatchHost>,
    pub rules: Vec<Rule<M, P>>,
}

/// Request matchers sharing one policy.
pub struct Rule<M, P> {
    /// Matchers, any of which may apply; the most specific one counts. Empty
    /// means the rule applies to every request.
    pub matches: Vec<M>,
    pub policy: P,
}

/// How a route matched: by host, then by its rule.
pub struct RouteMatch<S> {
    pub host: Option<HostMatch>,
    pub route: S,
}

/// Whether host match `a` is strictly less specific than `b`.
fn host_below(a: &Option<HostMatch>, b: &Option<HostMatch>) -> (r: bool)
    ensures
        r == lex_lt(host_rank(*a), host_rank(*b)),
{
    match (a, b) {
        (None, None) => {
            proof {
                lemma_lex_irreflexive(host_rank(*a));
            }
            false
        },
        (None, Some(y)) => {
            proof {
                reveal_with_fuel(lex_lt, 2);
            }
            true
        },
        (Some(x), None) => {
            proof {
                reveal_with_fuel(lex_lt, 2);
            }
            false
        },
        (Some(x), Some(y)) => x.is_below(y),
    }
}

impl<S: Ranked> Ranked for RouteMatch<S> {
    open spec fn rank(&self) -> Seq<int> {
        host_rank(self.host) + self.route.rank()
    }

    fn is_below(&self, other: &Self) -> (r: bool) {
        let lower = host_below(&self.host, &other.host);
        let higher = host_below(&other.host, &self.host);
        proof {
            lemma_lex_concat(
                host_rank(self.host),
                self.route.rank(),
                host_rank(other.host),
                other.route.rank(),
            );
            if !lower && !higher {
                lemma_lex_total(host_rank(self.host), host_rank(other.host));
            }
            if lower || higher {
                if host_rank(self.host) == host_rank(other.host) {
                    lemma_lex_irreflexive(host_rank(self.host));
                }
            }
        }
        lower || (!higher && self.route.is_below(&other.route))
    }
}

/// How each of `hosts` matches `host`.
pub open spec fn host_candidates(hosts: Seq<MatchHost>, host: Option<Seq<char>>) -> Seq<
    Option<HostMatch>,
> {
    Seq::new(hosts.len(), |k: int| hosts[k].spec_match(host))
}

/// How a route's host names match: `Some(None)` where the route names no
/// host, `None` where it names hosts and none matches.
pub open spec fn route_host(hosts: Seq<MatchHost>, host: Option<Seq<char>>) -> Option<
    Option<HostMatch>,
> {
    if hosts.len() == 0 {
        Some(None)
    } else {
        match best_of(host_candidates(hosts, host)) {
            Some(h) => Some(Some(h)),
            None => None,
        }
    }
}

/// How each matcher of a rule matches.
pub open spec fn match_candidates<M: Match>(matches: Seq<M>, req: RequestView) -> Seq<
    Option<M::Summary>,
> {
    Seq::new(matches.len(), |k: int| matches[k].spec_match(req))
}

/// How a rule matches: the default summary where it lists no matchers, else
/// its most specific matcher's summary.
pub open spec fn rule_summary<M: Match, P>(rule: Rule<M, P>, req: RequestView) -> Option<M::Summary> {
    if rule.matches@.len() == 0 {
        Some(M::spec_default())
    } else {
        best_of(match_candidates(rule.matches@, req))
    }
}

pub open spec fn rule_candidates<M: Match, P>(rules: Seq<Rule<M, P>>, req: RequestView) -> Seq<
    Option<M::Summary>,
> {
    Seq::new(rules.len(), |j: int| rule_summary(rules[j], req))
}

/// How a route matches: its host match and its most specific rule's summary.
pub open spec fn route_summary<M: Match, P>(route: Route<M, P>, req: RequestView) -> Option<
    RouteMatch<M::Summary>,
> {
    match route_host(route.hosts@, req.uri.host) {
        None => None,
        Some(h) => match best_of(rule_candidates(route.rules@, req)) {
            Some(s) => Some(RouteMatch { host: h, route: s }),
            None => None,
        },
    }
}

/// The index of the rule a route selects.
pub open spec fn route_rule<M: Match, P>(route: Route<M, P>, req: RequestView) -> int {
    first_best(ranks_of(rule_candidates(route.rules@, req)))->0
}

pub open spec fn route_candidates<M: Match, P>(routes: Seq<Route<M, P>>, req: RequestView) -> Seq<
    Option<RouteMatch<M::Summary>>,
> {
    Seq::new(routes.len(), |i: int| route_summary(routes[i], req))
}

/// The selected route's summary, the index of the route and the index of its
/// rule; `None` where no route applies.
pub open spec fn spec_find<M: Match, P>(routes: Seq<Route<M, P>>, req: RequestView) -> Option<
    (RouteMatch<M::Summary>, int, int),
> {
    let c = route_candidates(routes, req);
    match first_best(ranks_of(c)) {
        Some(i) => Some((c[i]->0, i, route_rule(routes[i], req))),
        None => None,
    }
}

/// The most specific host match of `hosts` against `host`.
pub fn best_host(hosts: &Vec<MatchHost>, host: &Option<String>) -> (r: Option<HostMatch>)
    ensures
        r == best_of(host_candidates(hosts@, opt_text(*host))),
{
    let ghost c = host_candidates(hosts@, opt_text(*host));
    let mut best: Option<(HostMatch, usize)> = None;
    let mut k: usize = 0;
    proof {
        lemma_scanned_start(c);
    }
    while k < hosts.len()
        invariant
            k <= hosts@.len(),
            c == host_candidates(hosts@, opt_text(*host)),
            scanned(c, k as int, best),
        decreases hosts@.len() - k,
    {
        let cand = hosts[k].summarize_match(host);
        best = keep_best(best, cand, k, Ghost(c));
        k = k + 1;
    }
    proof {
        lemma_scanned_done(c, best);
    }
    match best {
        Some((h, _)) => Some(h),
        None => None,
    }
}

/// How a rule matches `req`.
pub fn rule_match<M: Match, P>(rule: &Rule<M, P>, req: &Request) -> (r: Option<M::Summary>)
    ensures
        r == rule_summary(*rule, req@),
{
    if rule.matches.len() == 0 {
        return Some(M::default_summary());
    }
    let ghost c = match_candidates(rule.matches@, req@);
    let mut best: Option<(M::Summary, usize)> = None;
    let mut k: usize = 0;
    proof {
        lemma_scanned_start(c);
    }
    while k < rule.matches.len()
        invariant
            k <= rule.matches@.len(),
            c == match_candidates(rule.matches@, req@),
            scanned(c, k as int, best),
        decreases rule.matches@.len() - k,
    {
        let cand = rule.matches[k].summarize_match(req);
        best = keep_best(best, cand, k, Ghost(c));
        k = k + 1;
    }
    proof {
        lemma_scanned_done(c, best);
    }
    match best {
        Some((s, _)) => Some(s),
        None => None,
    }
}

impl<M: Match, P> Route<M, P> {
    /// The route's summary for `req` and the policy of its selected rule.
    pub fn find<'a>(&'a self, req: &Request) -> (r: Option<(RouteMatch<M::Summary>, &'a P)>)
        ensures
            match route_summary(*self, req@) {
                None => r is None,
                Some(m) => r matches Some((rm, p)) && rm == m && *p == self.rules@[route_rule(
                    *self,
                    req@,
                )].policy,
            },
    {
        let host = if self.hosts.len() == 0 {
            None
        } else {
            match best_host(&self.hosts, &req.uri.host) {
                Some(h) => Some(h),
                None => return None,
            }
        };
        let ghost c = rule_candidates(self.rules@, req@);
        let mut best: Option<(M::Summary, usize)> = None;
        let mut j: usize = 0;
        proof {
            lemma_scanned_start(c);
        }
        while j < self.rules.len()
            invariant
                j <= self.rules@.len(),
                c == rule_candidates(self.rules@, req@),
                scanned(c, j as int, best),
            decreases self.rules@.len() - j,
        {
            let cand = rule_match(&self.rules[j], req);
            best = keep_best(best, cand, j, Ghost(c));
            j = j + 1;
        }
        proof {
            lemma_scanned_done(c, best);
        }
        match best {
            Some((s, b)) => Some((RouteMatch { host, route: s }, &self.rules[b].policy)),
            None => None,
        }
    }
}

/// Finds the most specific route and rule for `req`; among equally specific
/// candidates the earliest declared wins.
pub fn find<'r, M: Match, P>(routes: &'r Vec<Route<M, P>>, req: &Request) -> (r: Option<
    (RouteMatch<M::Summary>, &'r P),
>)
    ensures
        match spec_find(routes@, req@) {
            None => r is None,
            Some((m, i, j)) => r matches Some((rm, p)) && rm == m && *p
                == routes@[i].rules@[j].policy,
        },
{
    let ghost c = route_candidates(routes@, req@);
    let mut best: Option<(RouteMatch<M::Summary>, usize)> = None;
    let mut policy: Option<&'r P> = None;
    let mut i: usize = 0;
    proof {
        lemma_scanned_start(c);
    }
    while i < routes.len()
        invariant
            i <= routes@.len(),
            c == route_candidates(routes@, req@),
            scanned(c, i as int, best),
            best is Some == policy is Some,
            best matches Some((_, b)) ==> *policy->0 == routes@[b as int].rules@[route_rule(
                routes@[b as int],
                req@,
            )].policy,
        decreases routes@.len() - i,
    {
        match routes[i].find(req) {
            None => {
                best = keep_best(best, None, i, Ghost(c));
            },
            Some((m, p)) => {
                best = keep_best(best, Some(m), i, Ghost(c));
                if let Some((_, b)) = &best {
                    if *b == i {
                        policy = Some(p);
                    }
                }
            },
        }
        i = i + 1;
    }
    proof {
        lemma_scanned_done(c, best);
    }
    match best {
        Some((m, _)) => Some((m, policy.unwrap())),
        None => None,
    }
}

} // verus!

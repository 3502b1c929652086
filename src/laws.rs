//! Properties of route selection and filtering that hold for every policy
//! and request.
use vstd::prelude::*;
use crate::host::HostMatch;
use crate::http_filter::{spec_filters, HttpRouteFilter, RedirectRequest};
use crate::http_match::RequestMatch;
use crate::rank::{
    any_applies, best_of, first_best, lemma_first_best_exists, is_first_best, lemma_first_best_unique, lemma_lex_irreflexive,
    ranks_of, Ranked,
};
use crate::request::{HeadersView, RequestView, UriView};
use crate::route::{
    host_candidates, route_candidates, route_host, route_summary, rule_candidates, rule_summary,
    spec_find, Match, Route, Rule,
};
use crate::authz::Meta;

verus! {

/// A route that names no host applies to a request whatever its host: how it
/// matches depends on its rules alone.
pub proof fn lemma_no_hosts_any_host<M: Match, P>(route: Route<M, P>, req: RequestView)
    requires
        route.hosts@.len() == 0,
    ensures
        route_host(route.hosts@, req.uri.host) == Some(None::<HostMatch>),
        route_summary(route, req) is Some <==> best_of(rule_candidates(route.rules@, req)) is Some,
{
}

/// A route that names hosts, none of which matches the request's host, is
/// left out: it yields no candidate and is never selected.
pub proof fn lemma_unmatched_hosts_excluded<M: Match, P>(
    routes: Seq<Route<M, P>>,
    req: RequestView,
    i: int,
)
    requires
        0 <= i < routes.len(),
        routes[i].hosts@.len() > 0,
        forall|k: int|
            0 <= k < routes[i].hosts@.len() ==> #[trigger] routes[i].hosts@[k].spec_match(
                req.uri.host,
            ) is None,
    ensures
        route_summary(routes[i], req) is None,
        spec_find(routes, req) matches Some((_, s, _)) ==> s != i,
{
    let hc = host_candidates(routes[i].hosts@, req.uri.host);
    assert(!any_applies(ranks_of(hc))) by {
        assert forall|k: int| 0 <= k < ranks_of(hc).len() implies !(#[trigger] ranks_of(hc)[k] is Some) by {
            assert(hc[k] is None);
        }
    }
    let c = route_candidates(routes, req);
    assert(c[i] is None);
    match first_best(ranks_of(c)) {
        Some(s) => {
            assert(any_applies(ranks_of(c)));
            lemma_first_best_exists(ranks_of(c));
            assert(ranks_of(c)[s] is Some);
            assert(s != i);
        },
        None => {},
    }
}

/// A rule with no matchers applies to every request, with the default
/// summary; a route holding one always has a rule that applies; and when it
/// is selected no rule of the route ranks above the default.
pub proof fn lemma_default_rule<M: Match, P>(rules: Seq<Rule<M, P>>, req: RequestView, j: int)
    requires
        0 <= j < rules.len(),
        rules[j].matches@.len() == 0,
    ensures
        rule_summary(rules[j], req) == Some(M::spec_default()),
        best_of(rule_candidates(rules, req)) is Some,
        first_best(ranks_of(rule_candidates(rules, req))) == Some(j) ==> forall|k: int|
            0 <= k < rules.len() && (#[trigger] rule_candidates(rules, req)[k]) is Some
                ==> !crate::rank::lex_lt(
                M::spec_default().rank(),
                rule_candidates(rules, req)[k]->0.rank(),
            ),
{
    let c = rule_candidates(rules, req);
    let s = ranks_of(c);
    assert(c[j] is Some);
    assert(s[j] is Some);
    assert(any_applies(s));
    lemma_first_best_exists(s);
    if first_best(s) == Some(j) {
        assert forall|k: int| 0 <= k < rules.len() && (#[trigger] c[k]) is Some implies !crate::rank::lex_lt(
            M::spec_default().rank(),
            c[k]->0.rank(),
        ) by {
            assert(s[k] is Some);
        }
    }
}

/// Of two rules that match a request equally specifically, the later is
/// never selected: ties go to the rule declared first.
pub proof fn lemma_first_of_equals_wins<M: Match, P>(
    rules: Seq<Rule<M, P>>,
    req: RequestView,
    j1: int,
    j2: int,
)
    requires
        0 <= j1 < j2 < rules.len(),
        rule_summary(rules[j1], req) is Some,
        rule_summary(rules[j1], req) == rule_summary(rules[j2], req),
    ensures
        first_best(ranks_of(rule_candidates(rules, req))) != Some(j2),
{
    let c = rule_candidates(rules, req);
    let s = ranks_of(c);
    assert(s[j1] is Some);
    assert(s[j1] == s[j2]);
    assert(any_applies(s));
    lemma_first_best_exists(s);
    let b = first_best(s)->0;
    if b == j2 {
        lemma_lex_irreflexive(s[j1]->0);
    }
}

/// Route selection is a function of the policy and the request: at most one
/// route is the earliest most specific candidate, so repeated evaluation of
/// one snapshot and request selects the same route, rule and summary.
pub proof fn lemma_selection_unique<M: Match, P>(
    routes: Seq<Route<M, P>>,
    req: RequestView,
    i: int,
    k: int,
)
    requires
        is_first_best(ranks_of(route_candidates(routes, req)), i),
        is_first_best(ranks_of(route_candidates(routes, req)), k),
    ensures
        i == k,
        spec_find(routes, req) matches Some((_, s, _)) && s == i,
{
    let c = ranks_of(route_candidates(routes, req));
    lemma_first_best_unique(c, i, k);
    assert(c[i] is Some);
    assert(any_applies(c));
    lemma_first_best_exists(c);
    lemma_first_best_unique(c, i, first_best(c)->0);
}

/// A redirect whose location would be the request's own URI is passed over:
/// the filters run on as if it were not there.
pub proof fn lemma_redirect_to_self_passes(
    filters: Seq<HttpRouteFilter>,
    meta: Meta,
    rm: RequestMatch,
    uri: UriView,
    h: HeadersView,
)
    requires
        filters.len() > 0,
        filters[0] matches HttpRouteFilter::Redirect(r) && r.spec_apply(uri, rm) == Ok::<
            Option<crate::http_filter::RedirectionView>,
            crate::http_filter::InvalidRedirect,
        >(None),
    ensures
        spec_filters(filters, meta, rm, uri, h) == spec_filters(filters.drop_first(), meta, rm, uri, h),
{
}

/// A redirect that changes nothing about a request's URI, and whose parts are
/// valid, yields no redirection rather than an error.
pub proof fn lemma_identical_redirect_is_none(r: RedirectRequest, orig: UriView, rm: RequestMatch)
    requires
        r.spec_host(orig) is Some,
        crate::http_filter::authority_parses(
            crate::http_filter::authority_text(r.spec_host(orig)->0, r.spec_port(orig)),
        ),
        r.spec_path(orig, rm) is Some,
        crate::http_filter::uri_builds(
            r.spec_scheme(orig),
            crate::http_filter::authority_text(r.spec_host(orig)->0, r.spec_port(orig)),
            r.spec_path(orig, rm)->0,
        ),
        orig.scheme == Some(r.spec_scheme(orig)),
        orig.host == r.spec_host(orig),
        orig.port == r.spec_port(orig),
        crate::http_filter::path_and_query(orig) == r.spec_path(orig, rm)->0,
    ensures
        r.spec_apply(orig, rm) == Ok::<
            Option<crate::http_filter::RedirectionView>,
            crate::http_filter::InvalidRedirect,
        >(None),
{
}

} // verus!

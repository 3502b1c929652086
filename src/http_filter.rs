//! HTTP route filters: header rewriting, redirects, synthetic errors, and the
//! pipeline that runs them in order.
use vstd::prelude::*;
use crate::authz::Meta;
use crate::http_match::{PathMatch, RequestMatch};
use crate::request::{opt_text, without_name, HeaderMap, HeadersView, Request, Uri, UriView};
use crate::route::RouteMatch;
use crate::text::{same_text, views};

verus! {

/// Whether the `http` crate accepts the text as a URI authority.
pub uninterp spec fn authority_parses(authority: Seq<char>) -> bool;

/// Whether the `http` crate builds a URI from the scheme, the authority and
/// the path (which may carry a query).
pub uninterp spec fn uri_builds(scheme: Seq<char>, authority: Seq<char>, path: Seq<char>) -> bool;

/// Relies on `http::uri::Authority`'s `FromStr`: whether the text is a valid
/// authority.
#[verifier::external_body]
fn check_authority(authority: &str) -> (r: bool)
    ensures
        r == authority_parses(authority@),
{
    authority.parse::<http::uri::Authority>().is_ok()
}

/// Relies on `http::uri::Builder::build`: whether a URI with this scheme,
/// authority and path-and-query is valid.
#[verifier::external_body]
fn check_location(scheme: &str, authority: &str, path: &str) -> (r: bool)
    ensures
        r == uri_builds(scheme@, authority@, path@),
{
    http::Uri::builder().scheme(scheme).authority(authority).path_and_query(path).build().is_ok()
}

pub open spec fn digit(d: nat) -> char {
    seq!['0', '1', '2', '3', '4', '5', '6', '7', '8', '9'][d as int]
}

/// The decimal digits of `n`, without leading zeros.
pub open spec fn decimal(n: nat) -> Seq<char>
    decreases n,
{
    if n < 10 {
        seq![digit(n)]
    } else {
        decimal(n / 10).push(digit(n % 10))
    }
}

/// The authority text of a host and an optional port: `host` or `host:port`.
pub open spec fn authority_text(host: Seq<char>, port: Option<u16>) -> Seq<char> {
    match port {
        Some(p) => host + seq![':'] + decimal(p as nat),
        None => host,
    }
}

fn digit_text(d: u16) -> (r: &'static str)
    requires
        d < 10,
    ensures
        r@ == seq![digit(d as nat)],
{
    proof {
        reveal_strlit("0");
        reveal_strlit("1");
        reveal_strlit("2");
        reveal_strlit("3");
        reveal_strlit("4");
        reveal_strlit("5");
        reveal_strlit("6");
        reveal_strlit("7");
        reveal_strlit("8");
        reveal_strlit("9");
    }
    let r = if d == 0 {
        "0"
    } else if d == 1 {
        "1"
    } else if d == 2 {
        "2"
    } else if d == 3 {
        "3"
    } else if d == 4 {
        "4"
    } else if d == 5 {
        "5"
    } else if d == 6 {
        "6"
    } else if d == 7 {
        "7"
    } else if d == 8 {
        "8"
    } else {
        "9"
    };
    assert(r@ =~= seq![digit(d as nat)]);
    r
}

fn decimal_text(n: u16) -> (r: String)
    ensures
        r@ == decimal(n as nat),
    decreases n,
{
    if n < 10 {
        digit_text(n).to_owned()
    } else {
        let mut s = decimal_text(n / 10);
        s.append(digit_text(n % 10));
        s
    }
}

fn authority_of(host: &String, port: Option<u16>) -> (r: String)
    ensures
        r@ == authority_text(host@, port),
{
    let mut a = host.clone();
    if let Some(p) = port {
        a.append(":");
        a.append(decimal_text(p).as_str());
        proof {
            reveal_strlit(":");
            assert(":"@ =~= seq![':']);
        }
    }
    a
}

pub open spec fn pairs_view(v: Seq<(String, String)>) -> HeadersView {
    v.map_values(|e: (String, String)| (e.0@, e.1@))
}

/// Each `(name, value)` in turn replaces every value of `name`.
pub open spec fn set_all(h: HeadersView, ops: HeadersView) -> HeadersView
    decreases ops.len(),
{
    if ops.len() == 0 {
        h
    } else {
        without_name(set_all(h, ops.drop_last()), ops.last().0).push(ops.last())
    }
}

/// Each name in turn loses all its values.
pub open spec fn remove_all(h: HeadersView, names: Seq<Seq<char>>) -> HeadersView
    decreases names.len(),
{
    if names.len() == 0 {
        h
    } else {
        without_name(remove_all(h, names.drop_last()), names.last())
    }
}

/// Rewrites request headers: first every `set` (replacing the header's
/// values), then every `add` (keeping existing values), then every `remove`.
pub struct ModifyRequestHeader {
    pub add: Vec<(String, String)>,
    pub set: Vec<(String, String)>,
    pub remove: Vec<String>,
}

impl ModifyRequestHeader {
    pub open spec fn spec_apply(&self, h: HeadersView) -> HeadersView {
        remove_all(set_all(h, pairs_view(self.set@)) + pairs_view(self.add@), views(self.remove@))
    }

    pub fn apply(&self, headers: &mut HeaderMap)
        ensures
            final(headers)@ == self.spec_apply(old(headers)@),
    {
        let ghost h0 = headers@;
        let ghost sets = pairs_view(self.set@);
        let mut k: usize = 0;
        while k < self.set.len()
            invariant
                k <= self.set@.len(),
                sets == pairs_view(self.set@),
                headers@ == set_all(h0, sets.take(k as int)),
            decreases self.set@.len() - k,
        {
            proof {
                assert(sets.take(k + 1).drop_last() =~= sets.take(k as int));
            }
            headers.insert(self.set[k].0.as_str(), self.set[k].1.as_str());
            k = k + 1;
        }
        proof {
            assert(sets.take(sets.len() as int) =~= sets);
        }
        let ghost h1 = headers@;
        let ghost adds = pairs_view(self.add@);
        let mut k: usize = 0;
        while k < self.add.len()
            invariant
                k <= self.add@.len(),
                adds == pairs_view(self.add@),
                headers@ == h1 + adds.take(k as int),
            decreases self.add@.len() - k,
        {
            headers.append(self.add[k].0.as_str(), self.add[k].1.as_str());
            proof {
                assert(h1 + adds.take(k + 1) =~= (h1 + adds.take(k as int)).push(adds[k as int]));
            }
            k = k + 1;
        }
        proof {
            assert(adds.take(adds.len() as int) =~= adds);
        }
        let ghost h2 = headers@;
        let ghost names = views(self.remove@);
        let mut k: usize = 0;
        while k < self.remove.len()
            invariant
                k <= self.remove@.len(),
                names == views(self.remove@),
                headers@ == remove_all(h2, names.take(k as int)),
            decreases self.remove@.len() - k,
        {
            proof {
                assert(names.take(k + 1).drop_last() =~= names.take(k as int));
            }
            headers.remove(self.remove[k].as_str());
            k = k + 1;
        }
        proof {
            assert(names.take(names.len() as int) =~= names);
        }
    }
}

/// Whether the `http` crate accepts the text as a header name.
pub uninterp spec fn header_name_parses(name: Seq<char>) -> bool;

/// Whether the `http` crate accepts the text as a header value.
pub uninterp spec fn header_value_parses(value: Seq<char>) -> bool;

/// Relies on `http::header::HeaderName::from_bytes`: whether the text is a
/// valid header name.
#[verifier::external_body]
pub(crate) fn check_header_name(name: &str) -> (r: bool)
    ensures
        r == header_name_parses(name@),
{
    http::header::HeaderName::from_bytes(name.as_bytes()).is_ok()
}

/// Relies on `http::header::HeaderValue::from_bytes`: whether the text is a
/// valid header value.
#[verifier::external_body]
pub(crate) fn check_header_value(value: &str) -> (r: bool)
    ensures
        r == header_value_parses(value@),
{
    http::header::HeaderValue::from_bytes(value.as_bytes()).is_ok()
}

/// Why a configured header modifier was refused.
#[derive(Clone, Copy, Debug, PartialEq, Eq, Structural)]
pub enum RequestHeaderModifierError {
    InvalidName,
    InvalidValue,
}

/// The first invalid part of `pairs`, if any: a pair's name is checked
/// before its value.
pub open spec fn pairs_error(pairs: HeadersView) -> Option<RequestHeaderModifierError>
    decreases pairs.len(),
{
    if pairs.len() == 0 {
        None
    } else if !header_name_parses(pairs[0].0) {
        Some(RequestHeaderModifierError::InvalidName)
    } else if !header_value_parses(pairs[0].1) {
        Some(RequestHeaderModifierError::InvalidValue)
    } else {
        pairs_error(pairs.drop_first())
    }
}

pub open spec fn names_valid(names: Seq<Seq<char>>) -> bool {
    forall|k: int| 0 <= k < names.len() ==> header_name_parses(#[trigger] names[k])
}

fn check_pairs(pairs: &Vec<(String, String)>) -> (r: Option<RequestHeaderModifierError>)
    ensures
        r == pairs_error(pairs_view(pairs@)),
{
    let ghost all = pairs_view(pairs@);
    let mut k: usize = 0;
    assert(all.subrange(0, all.len() as int) =~= all);
    while k < pairs.len()
        invariant
            k <= pairs@.len(),
            all == pairs_view(pairs@),
            pairs_error(all.subrange(k as int, all.len() as int)) == pairs_error(all),
        decreases pairs@.len() - k,
    {
        let ghost rest = all.subrange(k as int, all.len() as int);
        assert(rest[0] == (pairs@[k as int].0@, pairs@[k as int].1@));
        assert(rest.drop_first() =~= all.subrange(k + 1, all.len() as int));
        if !check_header_name(pairs[k].0.as_str()) {
            return Some(RequestHeaderModifierError::InvalidName);
        }
        if !check_header_value(pairs[k].1.as_str()) {
            return Some(RequestHeaderModifierError::InvalidValue);
        }
        k = k + 1;
    }
    None
}

impl ModifyRequestHeader {
    /// Builds a header modifier; every name and value must be valid. The
    /// pairs to add are checked first, then those to set, then the names to
    /// remove.
    pub fn try_new(
        add: Vec<(String, String)>,
        set: Vec<(String, String)>,
        remove: Vec<String>,
    ) -> (r: Result<ModifyRequestHeader, RequestHeaderModifierError>)
        ensures
            match pairs_error(pairs_view(add@)) {
                Some(e) => r == Err::<ModifyRequestHeader, _>(e),
                None => match pairs_error(pairs_view(set@)) {
                    Some(e) => r == Err::<ModifyRequestHeader, _>(e),
                    None => if names_valid(views(remove@)) {
                        r == Ok::<_, RequestHeaderModifierError>(
                            ModifyRequestHeader { add, set, remove },
                        )
                    } else {
                        r == Err::<ModifyRequestHeader, _>(
                            RequestHeaderModifierError::InvalidName,
                        )
                    },
                },
            },
    {
        if let Some(e) = check_pairs(&add) {
            return Err(e);
        }
        if let Some(e) = check_pairs(&set) {
            return Err(e);
        }
        let mut k: usize = 0;
        while k < remove.len()
            invariant
                k <= remove@.len(),
                pairs_error(pairs_view(add@)) is None,
                pairs_error(pairs_view(set@)) is None,
                forall|j: int| 0 <= j < k ==> header_name_parses(#[trigger] views(remove@)[j]),
            decreases remove@.len() - k,
        {
            assert(views(remove@)[k as int] == remove@[k as int]@);
            if !check_header_name(remove[k].as_str()) {
                return Err(RequestHeaderModifierError::InvalidName);
            }
            k = k + 1;
        }
        Ok(ModifyRequestHeader { add, set, remove })
    }
}

/// How a redirect rewrites the path.
pub enum ModifyPath {
    /// The whole path becomes the text.
    ReplaceFullPath(String),
    /// The part of the path that a prefix match matched becomes the text.
    ReplacePrefixMatch(String),
}

/// A redirect: each part that is given replaces the request's own.
pub struct RedirectRequest {
    pub scheme: Option<String>,
    pub host: Option<String>,
    pub port: Option<u16>,
    pub path: Option<ModifyPath>,
    pub status: Option<u16>,
}

/// Why a redirect could not be made.
#[derive(Clone, Copy, Debug, PartialEq, Eq, Structural)]
pub enum InvalidRedirect {
    /// The path prefix was to be replaced, but the request did not match by
    /// a path prefix that fits the path.
    InvalidReplacePrefix,
    /// The new location is not a valid URI.
    InvalidLocation,
    /// The new host and port are not a valid authority.
    InvalidAuthority,
    /// Neither the redirect nor the request gives a host.
    MissingAuthority,
}

/// An answer that sends the client to another location.
pub struct Redirection {
    pub status: u16,
    pub location: Uri,
}

pub struct RedirectionView {
    pub status: u16,
    pub location: UriView,
}

impl View for Redirection {
    type V = RedirectionView;

    open spec fn view(&self) -> RedirectionView {
        RedirectionView { status: self.status, location: self.location@ }
    }
}

/// The scheme `http`.
pub open spec fn http_scheme() -> Seq<char> {
    seq!['h', 't', 't', 'p']
}

/// The status of a permanent move.
pub const MOVED_PERMANENTLY: u16 = 301;

/// The path of `uri` with its query, as the request line writes them.
pub open spec fn path_and_query(uri: UriView) -> Seq<char> {
    match uri.query {
        Some(q) => uri.path + seq!['?'] + q,
        None => uri.path,
    }
}

impl RedirectRequest {
    pub open spec fn spec_scheme(&self, orig: UriView) -> Seq<char> {
        match self.scheme {
            Some(s) => s@,
            None => match orig.scheme {
                Some(s) => s,
                None => http_scheme(),
            },
        }
    }

    pub open spec fn spec_host(&self, orig: UriView) -> Option<Seq<char>> {
        match self.host {
            Some(h) => Some(h@),
            None => orig.host,
        }
    }

    pub open spec fn spec_port(&self, orig: UriView) -> Option<u16> {
        match self.port {
            Some(p) => Some(p),
            None => orig.port,
        }
    }

    /// The new path; `None` where a prefix is to be replaced but the request
    /// did not match by a prefix that fits its path.
    pub open spec fn spec_path(&self, orig: UriView, rm: RequestMatch) -> Option<Seq<char>> {
        match self.path {
            None => Some(orig.path),
            Some(ModifyPath::ReplaceFullPath(p)) => Some(p@),
            Some(ModifyPath::ReplacePrefixMatch(p)) => match rm.path_match {
                PathMatch::Prefix(n) => if n <= orig.path.len() {
                    Some(p@ + orig.path.subrange(n as int, orig.path.len() as int))
                } else {
                    None
                },
                _ => None,
            },
        }
    }

    /// The redirect for a request to `orig` that matched as `rm`: an error
    /// where it cannot be made, `None` where the location would be the
    /// request's own URI, else the new location and status.
    pub open spec fn spec_apply(&self, orig: UriView, rm: RequestMatch) -> Result<
        Option<RedirectionView>,
        InvalidRedirect,
    > {
        let scheme = self.spec_scheme(orig);
        let port = self.spec_port(orig);
        match self.spec_host(orig) {
            None => Err(InvalidRedirect::MissingAuthority),
            Some(host) => if !authority_parses(authority_text(host, port)) {
                Err(InvalidRedirect::InvalidAuthority)
            } else {
                match self.spec_path(orig, rm) {
                    None => Err(InvalidRedirect::InvalidReplacePrefix),
                    Some(path) => if !uri_builds(scheme, authority_text(host, port), path) {
                        Err(InvalidRedirect::InvalidLocation)
                    } else if orig.scheme == Some(scheme) && orig.host == Some(host) && orig.port
                        == port && path_and_query(orig) == path {
                        Ok(None)
                    } else {
                        Ok(
                            Some(
                                RedirectionView {
                                    status: match self.status {
                                        Some(s) => s,
                                        None => MOVED_PERMANENTLY,
                                    },
                                    location: UriView {
                                        scheme: Some(scheme),
                                        host: Some(host),
                                        port,
                                        path,
                                        query: None,
                                    },
                                },
                            ),
                        )
                    },
                }
            },
        }
    }
}

/// Whether `o` holds exactly the text `t`.
fn holds_text(o: &Option<String>, t: &String) -> (r: bool)
    ensures
        r == (opt_text(*o) == Some(t@)),
{
    match o {
        Some(s) => same_text(s.as_str(), t.as_str()),
        None => false,
    }
}

fn same_port(a: Option<u16>, b: Option<u16>) -> (r: bool)
    ensures
        r == (a == b),
{
    match (a, b) {
        (Some(x), Some(y)) => x == y,
        (None, None) => true,
        _ => false,
    }
}

/// The request line's path and query of `uri`.
fn path_and_query_of(uri: &Uri) -> (r: String)
    ensures
        r@ == path_and_query(uri@),
{
    let mut pq = uri.path.clone();
    if let Some(q) = &uri.query {
        pq.append("?");
        pq.append(q.as_str());
        proof {
            reveal_strlit("?");
            assert("?"@ =~= seq!['?']);
        }
    }
    pq
}

impl RedirectRequest {
    /// Computes the redirect for a request to `orig` that matched as `rm`.
    pub fn apply(&self, orig: &Uri, rm: &RouteMatch<RequestMatch>) -> (r: Result<
        Option<Redirection>,
        InvalidRedirect,
    >)
        ensures
            match r {
                Ok(Some(x)) => self.spec_apply(orig@, rm.route) == Ok::<
                    Option<RedirectionView>,
                    InvalidRedirect,
                >(Some(x@)),
                Ok(None) => self.spec_apply(orig@, rm.route) == Ok::<
                    Option<RedirectionView>,
                    InvalidRedirect,
                >(None),
                Err(e) => self.spec_apply(orig@, rm.route) == Err::<
                    Option<RedirectionView>,
                    InvalidRedirect,
                >(e),
            },
    {
        let scheme: String = match &self.scheme {
            Some(s) => s.clone(),
            None => match &orig.scheme {
                Some(s) => s.clone(),
                None => {
                    let h = "http".to_owned();
                    proof {
                        reveal_strlit("http");
                        assert("http"@ =~= http_scheme());
                    }
                    h
                },
            },
        };
        let port = match self.port {
            Some(p) => Some(p),
            None => orig.port,
        };
        let host: String = match &self.host {
            Some(h) => h.clone(),
            None => match &orig.host {
                Some(h) => h.clone(),
                None => return Err(InvalidRedirect::MissingAuthority),
            },
        };
        let authority = authority_of(&host, port);
        if !check_authority(authority.as_str()) {
            return Err(InvalidRedirect::InvalidAuthority);
        }
        let path: String = match &self.path {
            None => orig.path.clone(),
            Some(ModifyPath::ReplaceFullPath(p)) => p.clone(),
            Some(ModifyPath::ReplacePrefixMatch(p)) => match rm.route.path_match {
                PathMatch::Prefix(n) => {
                    let len = orig.path.as_str().unicode_len();
                    if n <= len {
                        let mut s = p.clone();
                        s.append(orig.path.as_str().substring_char(n, len));
                        s
                    } else {
                        return Err(InvalidRedirect::InvalidReplacePrefix);
                    }
                },
                _ => return Err(InvalidRedirect::InvalidReplacePrefix),
            },
        };
        if !check_location(scheme.as_str(), authority.as_str(), path.as_str()) {
            return Err(InvalidRedirect::InvalidLocation);
        }
        let orig_pq = path_and_query_of(orig);
        if holds_text(&orig.scheme, &scheme) && holds_text(&orig.host, &host) && same_port(
            orig.port,
            port,
        ) && same_text(orig_pq.as_str(), path.as_str()) {
            return Ok(None);
        }
        let status = match self.status {
            Some(s) => s,
            None => MOVED_PERMANENTLY,
        };
        let location = Uri { scheme: Some(scheme), host: Some(host), port, path, query: None };
        Ok(Some(Redirection { status, location }))
    }
}

/// An HTTP status code is a three-digit number.
pub open spec fn valid_status(code: int) -> bool {
    100 <= code <= 999
}

/// Why a configured redirect was refused.
#[derive(Clone, Copy, Debug, PartialEq, Eq, Structural)]
pub enum RequestRedirectError {
    /// A status below 600 that is not an HTTP status code.
    InvalidStatus(u32),
    /// A status of 600 or more.
    InvalidStatusNonU16(u32),
    /// A port above 65535.
    InvalidPort(u32),
}

impl RedirectRequest {
    /// Builds a redirect from its configured parts, where an empty host, a
    /// port of 0 and a status of 0 mean "not given".
    pub fn try_new(
        scheme: Option<String>,
        host: String,
        port: u32,
        path: Option<ModifyPath>,
        status: u32,
    ) -> (r: Result<RedirectRequest, RequestRedirectError>)
        ensures
            port > 0xffff ==> r == Err::<RedirectRequest, _>(RequestRedirectError::InvalidPort(port)),
            port <= 0xffff && status >= 600 ==> r == Err::<RedirectRequest, _>(
                RequestRedirectError::InvalidStatusNonU16(status),
            ),
            port <= 0xffff && status < 600 && status != 0 && !valid_status(status as int) ==> r
                == Err::<RedirectRequest, _>(RequestRedirectError::InvalidStatus(status)),
            r is Ok <== (port <= 0xffff && (status == 0 || (status < 600 && valid_status(
                status as int,
            )))),
            r matches Ok(rr) ==> {
                &&& rr.scheme == scheme
                &&& rr.path == path
                &&& (if host@.len() == 0 {
                    rr.host is None
                } else {
                    rr.host == Some(host)
                })
                &&& (if port == 0 {
                    rr.port is None
                } else {
                    rr.port == Some(port as u16)
                })
                &&& (if status == 0 {
                    rr.status is None
                } else {
                    rr.status == Some(status as u16)
                })
            },
    {
        if port > 0xffff {
            return Err(RequestRedirectError::InvalidPort(port));
        }
        let status = if status == 0 {
            None
        } else if status < 600 {
            if status < 100 {
                return Err(RequestRedirectError::InvalidStatus(status));
            }
            Some(status as u16)
        } else {
            return Err(RequestRedirectError::InvalidStatusNonU16(status));
        };
        let host = if host.as_str().unicode_len() == 0 {
            None
        } else {
            Some(host)
        };
        let port = if port == 0 {
            None
        } else {
            Some(port as u16)
        };
        Ok(RedirectRequest { scheme, host, port, path, status })
    }
}

/// Why a configured HTTP error responder was refused.
#[derive(Clone, Copy, Debug, PartialEq, Eq, Structural)]
pub enum ErrorResponderError {
    /// A status that fits 16 bits but is not an HTTP status code.
    InvalidStatus(u16),
    /// A status that does not fit 16 bits.
    InvalidStatusNonU16(u32),
}

/// A synthetic HTTP error response.
pub struct RespondWithError {
    pub status: u16,
    pub message: String,
}

impl RespondWithError {
    /// Builds an error responder; the status must be an HTTP status code.
    pub fn try_new(status: u32, message: String) -> (r: Result<RespondWithError, ErrorResponderError>)
        ensures
            status > 0xffff ==> r == Err::<RespondWithError, _>(
                ErrorResponderError::InvalidStatusNonU16(status),
            ),
            status <= 0xffff && !valid_status(status as int) ==> r == Err::<RespondWithError, _>(
                ErrorResponderError::InvalidStatus(status as u16),
            ),
            valid_status(status as int) ==> r == Ok::<_, ErrorResponderError>(
                RespondWithError { status: status as u16, message },
            ),
    {
        if status > 0xffff {
            return Err(ErrorResponderError::InvalidStatusNonU16(status));
        }
        if status < 100 || status > 999 {
            return Err(ErrorResponderError::InvalidStatus(status as u16));
        }
        Ok(RespondWithError { status: status as u16, message })
    }

    pub fn duplicate(&self) -> (r: RespondWithError)
        ensures
            r == *self,
    {
        RespondWithError { status: self.status, message: self.message.clone() }
    }
}

/// A filter of an HTTP route.
pub enum HttpRouteFilter {
    Error(RespondWithError),
    RequestHeaders(ModifyRequestHeader),
    Redirect(RedirectRequest),
    /// A filter kind this library does not know; requests on its route fail
    /// rather than skip it.
    Unknown,
}

/// Why the filters stopped a request instead of letting it through.
pub enum FilterOutcome {
    /// Answer with a redirect.
    Redirect(Redirection),
    /// Answer with a synthetic error.
    ErrorResponse(RespondWithError),
    /// A redirect filter does not apply to this request.
    InvalidRedirect(InvalidRedirect),
    /// The route holds a filter of unknown kind; the route's labels.
    UnknownFilter(Meta),
}

pub enum FilterOutcomeView {
    Redirect(RedirectionView),
    ErrorResponse(RespondWithError),
    InvalidRedirect(InvalidRedirect),
    UnknownFilter(Meta),
}

impl View for FilterOutcome {
    type V = FilterOutcomeView;

    open spec fn view(&self) -> FilterOutcomeView {
        match self {
            FilterOutcome::Redirect(x) => FilterOutcomeView::Redirect(x@),
            FilterOutcome::ErrorResponse(e) => FilterOutcomeView::ErrorResponse(*e),
            FilterOutcome::InvalidRedirect(e) => FilterOutcomeView::InvalidRedirect(*e),
            FilterOutcome::UnknownFilter(m) => FilterOutcomeView::UnknownFilter(*m),
        }
    }
}

pub open spec fn outcome_view(r: Result<(), FilterOutcome>) -> Result<(), FilterOutcomeView> {
    match r {
        Ok(()) => Ok(()),
        Err(o) => Err(o@),
    }
}

/// Runs `filters` in order on a request to `uri` with headers `h` that
/// matched as `rm` on a route labelled `meta`: header filters rewrite the
/// headers, a redirect to the request's own URI is passed over, and the first
/// filter that answers the request stops the run. The headers as left, and
/// the outcome.
pub open spec fn spec_filters(
    filters: Seq<HttpRouteFilter>,
    meta: Meta,
    rm: RequestMatch,
    uri: UriView,
    h: HeadersView,
) -> (HeadersView, Result<(), FilterOutcomeView>)
    decreases filters.len(),
{
    if filters.len() == 0 {
        (h, Ok(()))
    } else {
        match filters[0] {
            HttpRouteFilter::RequestHeaders(m) => spec_filters(
                filters.drop_first(),
                meta,
                rm,
                uri,
                m.spec_apply(h),
            ),
            HttpRouteFilter::Redirect(r) => match r.spec_apply(uri, rm) {
                Err(e) => (h, Err(FilterOutcomeView::InvalidRedirect(e))),
                Ok(Some(x)) => (h, Err(FilterOutcomeView::Redirect(x))),
                Ok(None) => spec_filters(filters.drop_first(), meta, rm, uri, h),
            },
            HttpRouteFilter::Error(e) => (h, Err(FilterOutcomeView::ErrorResponse(e))),
            HttpRouteFilter::Unknown => (h, Err(FilterOutcomeView::UnknownFilter(meta))),
        }
    }
}

/// Runs the filters of an HTTP route on a request, in order, stopping at the
/// first that answers it.
pub fn apply_filters(
    filters: &Vec<HttpRouteFilter>,
    meta: &Meta,
    rm: &RouteMatch<RequestMatch>,
    req: &mut Request,
) -> (r: Result<(), FilterOutcome>)
    ensures
        final(req).method == old(req).method,
        final(req).uri == old(req).uri,
        (final(req)@.headers, outcome_view(r)) == spec_filters(
            filters@,
            *meta,
            rm.route,
            old(req)@.uri,
            old(req)@.headers,
        ),
{
    let ghost all = spec_filters(filters@, *meta, rm.route, req@.uri, req@.headers);
    let mut k: usize = 0;
    assert(filters@.subrange(0, filters@.len() as int) =~= filters@);
    while k < filters.len()
        invariant
            k <= filters@.len(),
            req.method == old(req).method,
            req.uri == old(req).uri,
            all == spec_filters(filters@, *meta, rm.route, old(req)@.uri, old(req)@.headers),
            spec_filters(filters@.subrange(k as int, filters@.len() as int), *meta, rm.route, req@.uri, req@.headers) == all,
        decreases filters@.len() - k,
    {
        let ghost rest = filters@.subrange(k as int, filters@.len() as int);
        proof {
            assert(rest[0] == filters@[k as int]);
            assert(rest.drop_first() =~= filters@.subrange(k + 1, filters@.len() as int));
        }
        match &filters[k] {
            HttpRouteFilter::RequestHeaders(m) => {
                m.apply(&mut req.headers);
            },
            HttpRouteFilter::Redirect(redirect) => {
                match redirect.apply(&req.uri, rm) {
                    Ok(None) => {},
                    Ok(Some(x)) => {
                        return Err(FilterOutcome::Redirect(x));
                    },
                    Err(e) => {
                        return Err(FilterOutcome::InvalidRedirect(e));
                    },
                }
            },
            HttpRouteFilter::Error(e) => {
                return Err(FilterOutcome::ErrorResponse(e.duplicate()));
            },
            HttpRouteFilter::Unknown => {
                return Err(FilterOutcome::UnknownFilter(meta.duplicate()));
            },
        }
        k = k + 1;
    }
    proof {
        assert(filters@.subrange(k as int, filters@.len() as int).len() == 0);
    }
    Ok(())
}

} // verus!

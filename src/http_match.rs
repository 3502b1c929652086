//! Matching HTTP requests: method, path, headers and query parameters.
use vstd::prelude::*;
use crate::http_filter::{check_header_name, check_header_value, header_name_parses, header_value_parses};
use crate::pattern::{matches_whole, regex_compiles, Pattern};
use crate::rank::{lex_lt, Ranked};
use crate::request::{HeadersView, Request, RequestView};
use crate::route::Match;
use crate::text::{same_name, same_name_spec, same_text, seg_end, split, split_spec, starts_with, views};

verus! {

/// A path matcher.
pub enum MatchPath {
    /// The path equals the text.
    Exact(String),
    /// The path starts with the text, at a segment boundary.
    Prefix(String),
    /// The pattern matches the whole path.
    Regex(Pattern),
}

/// How a path matched, with the length that ranks it: exact matches rank
/// above pattern matches, which rank above prefix matches; within a kind, the
/// longer match ranks higher.
#[derive(Clone, Copy, Debug, PartialEq, Eq, Structural)]
pub enum PathMatch {
    Exact(usize),
    Regex(usize),
    Prefix(usize),
}

impl PathMatch {
    pub open spec fn kind_rank(&self) -> int {
        match self {
            PathMatch::Exact(_) => 3,
            PathMatch::Regex(_) => 2,
            PathMatch::Prefix(_) => 1,
        }
    }

    pub open spec fn len(&self) -> int {
        match self {
            PathMatch::Exact(n) => *n as int,
            PathMatch::Regex(n) => *n as int,
            PathMatch::Prefix(n) => *n as int,
        }
    }

    fn parts(&self) -> (r: (u8, usize))
        ensures
            r.0 as int == self.kind_rank(),
            r.1 as int == self.len(),
    {
        match self {
            PathMatch::Exact(n) => (3, *n),
            PathMatch::Regex(n) => (2, *n),
            PathMatch::Prefix(n) => (1, *n),
        }
    }
}

/// `prefix` begins `path` and ends at a segment boundary of it.
pub open spec fn prefix_applies(prefix: Seq<char>, path: Seq<char>) -> bool {
    &&& prefix.len() <= path.len()
    &&& path.subrange(0, prefix.len() as int) == prefix
    &&& (prefix.len() == path.len() || (prefix.len() > 0 && prefix.last() == '/')
        || path[prefix.len() as int] == '/')
}

impl MatchPath {
    pub open spec fn spec_match(&self, path: Seq<char>) -> Option<PathMatch> {
        match self {
            MatchPath::Exact(s) => if s@ == path {
                Some(PathMatch::Exact(path.len() as usize))
            } else {
                None
            },
            MatchPath::Prefix(p) => if prefix_applies(p@, path) {
                Some(PathMatch::Prefix(p@.len() as usize))
            } else {
                None
            },
            MatchPath::Regex(re) => if matches_whole(re.source(), path) {
                Some(PathMatch::Regex(path.len() as usize))
            } else {
                None
            },
        }
    }

    pub fn match_length(&self, path: &str) -> (r: Option<PathMatch>)
        ensures
            r == self.spec_match(path@),
    {
        match self {
            MatchPath::Exact(s) => {
                if same_text(s.as_str(), path) {
                    Some(PathMatch::Exact(path.unicode_len()))
                } else {
                    None
                }
            },
            MatchPath::Prefix(p) => {
                let n = path.unicode_len();
                let m = p.as_str().unicode_len();
                if !starts_with(path, p.as_str()) {
                    return None;
                }
                if m == n || (m > 0 && p.as_str().get_char(m - 1) == '/') || path.get_char(m)
                    == '/' {
                    Some(PathMatch::Prefix(m))
                } else {
                    None
                }
            },
            MatchPath::Regex(re) => {
                if re.is_match_whole(path) {
                    Some(PathMatch::Regex(path.unicode_len()))
                } else {
                    None
                }
            },
        }
    }
}

/// A header matcher: some value of the named header (its name compared
/// without regard to ASCII case) equals the text, or is matched whole by the
/// pattern.
pub enum MatchHeader {
    Exact(String, String),
    Regex(String, Pattern),
}

impl MatchHeader {
    pub open spec fn value_applies(&self, value: Seq<char>) -> bool {
        match self {
            MatchHeader::Exact(_, v) => v@ == value,
            MatchHeader::Regex(_, re) => matches_whole(re.source(), value),
        }
    }

    pub open spec fn name(&self) -> Seq<char> {
        match self {
            MatchHeader::Exact(n, _) => n@,
            MatchHeader::Regex(n, _) => n@,
        }
    }

    pub open spec fn spec_applies(&self, headers: HeadersView) -> bool {
        exists|k: int|
            0 <= k < headers.len() && same_name_spec(headers[k].0, self.name()) && self.value_applies(
                #[trigger] headers[k].1,
            )
    }

    fn value_is_match(&self, value: &str) -> (r: bool)
        ensures
            r == self.value_applies(value@),
    {
        match self {
            MatchHeader::Exact(_, v) => same_text(v.as_str(), value),
            MatchHeader::Regex(_, re) => re.is_match_whole(value),
        }
    }

    fn name_str(&self) -> (r: &str)
        ensures
            r@ == self.name(),
    {
        match self {
            MatchHeader::Exact(n, _) => n.as_str(),
            MatchHeader::Regex(n, _) => n.as_str(),
        }
    }

    pub fn is_match(&self, headers: &crate::request::HeaderMap) -> (r: bool)
        ensures
            r == self.spec_applies(headers@),
    {
        let mut k: usize = 0;
        while k < headers.entries.len()
            invariant
                k <= headers.entries@.len(),
                forall|j: int|
                    0 <= j < k ==> !(same_name_spec(headers@[j].0, self.name()) && self.value_applies(
                        #[trigger] headers@[j].1,
                    )),
            decreases headers.entries@.len() - k,
        {
            let e = &headers.entries[k];
            if same_name(e.0.as_str(), self.name_str()) && self.value_is_match(e.1.as_str()) {
                assert(headers@[k as int] == (e.0@, e.1@));
                assert(self.value_applies(headers@[k as int].1));
                return true;
            }
            assert(headers@[k as int] == (e.0@, e.1@));
            k = k + 1;
        }
        false
    }
}

/// Why a configured header matcher was refused.
#[derive(Clone, Copy, Debug, PartialEq, Eq, Structural)]
pub enum HeaderMatchError {
    InvalidName,
    InvalidValue,
    InvalidRegex,
}

impl MatchHeader {
    /// A matcher of a header value equal to `value`; the name and value must
    /// be valid.
    pub fn try_exact(name: String, value: String) -> (r: Result<MatchHeader, HeaderMatchError>)
        ensures
            !header_name_parses(name@) ==> r == Err::<MatchHeader, _>(HeaderMatchError::InvalidName),
            header_name_parses(name@) && !header_value_parses(value@) ==> r == Err::<MatchHeader, _>(
                HeaderMatchError::InvalidValue,
            ),
            header_name_parses(name@) && header_value_parses(value@) ==> r == Ok::<
                _,
                HeaderMatchError,
            >(MatchHeader::Exact(name, value)),
    {
        if !check_header_name(name.as_str()) {
            return Err(HeaderMatchError::InvalidName);
        }
        if !check_header_value(value.as_str()) {
            return Err(HeaderMatchError::InvalidValue);
        }
        Ok(MatchHeader::Exact(name, value))
    }

    /// A matcher of a header value matched whole by `pattern`; the name and
    /// the pattern must be valid.
    pub fn try_regex(name: String, pattern: &str) -> (r: Result<MatchHeader, HeaderMatchError>)
        ensures
            !header_name_parses(name@) ==> r == Err::<MatchHeader, _>(HeaderMatchError::InvalidName),
            header_name_parses(name@) && !regex_compiles(pattern@) ==> r == Err::<MatchHeader, _>(
                HeaderMatchError::InvalidRegex,
            ),
            header_name_parses(name@) && regex_compiles(pattern@) ==> (r matches Ok(
                MatchHeader::Regex(n, re),
            ) && n == name && re.source() == pattern@),
    {
        if !check_header_name(name.as_str()) {
            return Err(HeaderMatchError::InvalidName);
        }
        match Pattern::new(pattern) {
            Some(re) => Ok(MatchHeader::Regex(name, re)),
            None => Err(HeaderMatchError::InvalidRegex),
        }
    }
}

/// Why a configured query parameter matcher was refused.
#[derive(Clone, Copy, Debug, PartialEq, Eq, Structural)]
pub enum QueryParamMatchError {
    MissingName,
    InvalidRegex,
}

/// The name of a query parameter: the text before its first `=`.
pub open spec fn param_name(piece: Seq<char>) -> Seq<char> {
    piece.subrange(0, seg_end(piece, '=', 0))
}

/// The value of a query parameter: the text after its first `=`, empty where
/// it has none.
pub open spec fn param_value(piece: Seq<char>) -> Seq<char> {
    let e = seg_end(piece, '=', 0);
    if e < piece.len() {
        piece.subrange(e + 1, piece.len() as int)
    } else {
        Seq::empty()
    }
}

/// Cuts a query parameter at its first `=`.
fn split_param(piece: &str) -> (r: (String, String))
    ensures
        r.0@ == param_name(piece@),
        r.1@ == param_value(piece@),
{
    let n = piece.unicode_len();
    let mut i: usize = 0;
    while i < n
        invariant
            i <= n == piece@.len(),
            forall|k: int| 0 <= k < i ==> piece@[k] != '=',
        decreases n - i,
    {
        if piece.get_char(i) == '=' {
            proof {
                crate::text::lemma_seg_end_skip(piece@, '=', 0, i as int);
            }
            return (piece.substring_char(0, i).to_owned(), piece.substring_char(i + 1, n).to_owned());
        }
        i = i + 1;
    }
    proof {
        crate::text::lemma_seg_end_skip(piece@, '=', 0, n as int);
        assert(Seq::<char>::empty() =~= piece@.subrange(n as int, n as int));
    }
    (piece.to_owned(), piece.substring_char(n, n).to_owned())
}

/// A query parameter matcher: some parameter of the name has a value equal to
/// the text, or matched whole by the pattern. The query is cut at `&` into
/// parameters and each at its first `=`; names and values are compared as
/// written, without percent-decoding.
pub enum MatchQueryParam {
    Exact(String, String),
    Regex(String, Pattern),
}

impl MatchQueryParam {
    /// A matcher of a parameter value equal to `value`; the name must not be
    /// empty.
    pub fn try_exact(name: String, value: String) -> (r: Result<MatchQueryParam, QueryParamMatchError>)
        ensures
            name@.len() == 0 ==> r == Err::<MatchQueryParam, _>(QueryParamMatchError::MissingName),
            name@.len() > 0 ==> r == Ok::<_, QueryParamMatchError>(MatchQueryParam::Exact(name, value)),
    {
        if name.as_str().unicode_len() == 0 {
            return Err(QueryParamMatchError::MissingName);
        }
        Ok(MatchQueryParam::Exact(name, value))
    }

    /// A matcher of a parameter value matched whole by `pattern`; the name
    /// must not be empty and the pattern must be valid.
    pub fn try_regex(name: String, pattern: &str) -> (r: Result<MatchQueryParam, QueryParamMatchError>)
        ensures
            name@.len() == 0 ==> r == Err::<MatchQueryParam, _>(QueryParamMatchError::MissingName),
            name@.len() > 0 && !regex_compiles(pattern@) ==> r == Err::<MatchQueryParam, _>(
                QueryParamMatchError::InvalidRegex,
            ),
            name@.len() > 0 && regex_compiles(pattern@) ==> (r matches Ok(
                MatchQueryParam::Regex(n, re),
            ) && n == name && re.source() == pattern@),
    {
        if name.as_str().unicode_len() == 0 {
            return Err(QueryParamMatchError::MissingName);
        }
        match Pattern::new(pattern) {
            Some(re) => Ok(MatchQueryParam::Regex(name, re)),
            None => Err(QueryParamMatchError::InvalidRegex),
        }
    }

    pub open spec fn name(&self) -> Seq<char> {
        match self {
            MatchQueryParam::Exact(n, _) => n@,
            MatchQueryParam::Regex(n, _) => n@,
        }
    }

    pub open spec fn value_applies(&self, value: Seq<char>) -> bool {
        match self {
            MatchQueryParam::Exact(_, v) => v@ == value,
            MatchQueryParam::Regex(_, re) => matches_whole(re.source(), value),
        }
    }

    pub open spec fn spec_applies(&self, query: Option<Seq<char>>) -> bool {
        match query {
            None => false,
            Some(q) => self.any_param_applies(split_spec(q, '&')),
        }
    }

    /// Some parameter among `params` has the name and a value that applies.
    pub open spec fn any_param_applies(&self, params: Seq<Seq<char>>) -> bool {
        exists|k: int| 0 <= k < params.len() && self.param_applies(#[trigger] params[k])
    }

    pub open spec fn param_applies(&self, param: Seq<char>) -> bool {
        param_name(param) == self.name() && self.value_applies(param_value(param))
    }

    fn name_str(&self) -> (r: &str)
        ensures
            r@ == self.name(),
    {
        match self {
            MatchQueryParam::Exact(n, _) => n.as_str(),
            MatchQueryParam::Regex(n, _) => n.as_str(),
        }
    }

    fn value_is_match(&self, value: &str) -> (r: bool)
        ensures
            r == self.value_applies(value@),
    {
        match self {
            MatchQueryParam::Exact(_, v) => same_text(v.as_str(), value),
            MatchQueryParam::Regex(_, re) => re.is_match_whole(value),
        }
    }

    pub fn is_match(&self, query: &Option<String>) -> (r: bool)
        ensures
            r == self.spec_applies(crate::request::opt_text(*query)),
    {
        match query {
            None => false,
            Some(q) => {
                let pieces = split(q.as_str(), '&');
                let ghost sp = split_spec(q@, '&');
                let mut k: usize = 0;
                while k < pieces.len()
                    invariant
                        k <= pieces@.len(),
                        views(pieces@) == sp,
                        sp == split_spec(q@, '&'),
                        crate::request::opt_text(*query) == Some(q@),
                        forall|j: int|
                            0 <= j < k ==> !self.param_applies(#[trigger] sp[j]),
                    decreases pieces@.len() - k,
                {
                    assert(sp[k as int] == pieces@[k as int]@);
                    let (name, value) = split_param(pieces[k].as_str());
                    if same_text(name.as_str(), self.name_str()) && self.value_is_match(
                        value.as_str(),
                    ) {
                        assert(self.param_applies(sp[k as int]));
                        return true;
                    }
                    k = k + 1;
                }
                false
            },
        }
    }
}

/// An HTTP request matcher; each part that is given must match.
pub struct MatchRequest {
    pub path: Option<MatchPath>,
    pub headers: Vec<MatchHeader>,
    pub query_params: Vec<MatchQueryParam>,
    pub method: Option<String>,
}

/// How an HTTP request matched: compared by path match, then the number of
/// headers matched, then the number of query parameters, then whether a method
/// was matched.
#[derive(Clone, Copy, Debug, PartialEq, Eq, Structural)]
pub struct RequestMatch {
    pub path_match: PathMatch,
    pub headers: usize,
    pub query_params: usize,
    pub method: bool,
}

impl RequestMatch {
    /// The summary of a rule with no matchers: a prefix match on `/`.
    pub open spec fn spec_default() -> RequestMatch {
        RequestMatch { path_match: PathMatch::Prefix(1), headers: 0, query_params: 0, method: false }
    }

    pub fn default() -> (r: RequestMatch)
        ensures
            r == Self::spec_default(),
    {
        RequestMatch { path_match: PathMatch::Prefix(1), headers: 0, query_params: 0, method: false }
    }

    pub fn path(&self) -> (r: &PathMatch)
        ensures
            *r == self.path_match,
    {
        &self.path_match
    }
}

impl Ranked for RequestMatch {
    open spec fn rank(&self) -> Seq<int> {
        seq![
            self.path_match.kind_rank(),
            self.path_match.len(),
            self.headers as int,
            self.query_params as int,
            if self.method { 1int } else { 0int },
        ]
    }

    fn is_below(&self, other: &Self) -> (r: bool) {
        let (k0, l0) = self.path_match.parts();
        let (k1, l1) = other.path_match.parts();
        let m0: u8 = if self.method { 1 } else { 0 };
        let m1: u8 = if other.method { 1 } else { 0 };
        proof {
            reveal_with_fuel(lex_lt, 6);
            let a = self.rank();
            let b = other.rank();
            assert(a.drop_first() =~= seq![a[1], a[2], a[3], a[4]]);
            assert(b.drop_first() =~= seq![b[1], b[2], b[3], b[4]]);
            assert(a.drop_first().drop_first() =~= seq![a[2], a[3], a[4]]);
            assert(b.drop_first().drop_first() =~= seq![b[2], b[3], b[4]]);
            assert(a.drop_first().drop_first().drop_first() =~= seq![a[3], a[4]]);
            assert(b.drop_first().drop_first().drop_first() =~= seq![b[3], b[4]]);
            assert(a.drop_first().drop_first().drop_first().drop_first() =~= seq![a[4]]);
            assert(b.drop_first().drop_first().drop_first().drop_first() =~= seq![b[4]]);
            assert(seq![a[4]].drop_first().len() == 0);
            assert(seq![b[4]].drop_first().len() == 0);
        }
        if k0 != k1 {
            k0 < k1
        } else if l0 != l1 {
            l0 < l1
        } else if self.headers != other.headers {
            self.headers < other.headers
        } else if self.query_params != other.query_params {
            self.query_params < other.query_params
        } else {
            m0 < m1
        }
    }
}

impl MatchRequest {
    pub open spec fn headers_apply(&self, headers: HeadersView) -> bool {
        forall|k: int| 0 <= k < self.headers@.len() ==> #[trigger] self.headers@[k].spec_applies(headers)
    }

    pub open spec fn query_params_apply(&self, query: Option<Seq<char>>) -> bool {
        forall|k: int|
            0 <= k < self.query_params@.len() ==> #[trigger] self.query_params@[k].spec_applies(query)
    }

    pub open spec fn path_summary(&self, path: Seq<char>) -> Option<PathMatch> {
        match self.path {
            Some(p) => p.spec_match(path),
            None => Some(PathMatch::Prefix(1)),
        }
    }

    pub open spec fn method_applies(&self, method: Seq<char>) -> bool {
        match self.method {
            Some(m) => m@ == method,
            None => true,
        }
    }
}

impl Match for MatchRequest {
    type Summary = RequestMatch;

    open spec fn spec_match(&self, req: RequestView) -> Option<RequestMatch> {
        if self.method_applies(req.method) && self.path_summary(req.uri.path) is Some
            && self.headers_apply(req.headers) && self.query_params_apply(req.uri.query) {
            Some(
                RequestMatch {
                    path_match: self.path_summary(req.uri.path)->0,
                    headers: self.headers@.len() as usize,
                    query_params: self.query_params@.len() as usize,
                    method: self.method is Some,
                },
            )
        } else {
            None
        }
    }

    open spec fn spec_default() -> RequestMatch {
        RequestMatch::spec_default()
    }

    fn summarize_match(&self, req: &Request) -> (r: Option<RequestMatch>) {
        if let Some(m) = &self.method {
            if !same_text(m.as_str(), req.method.as_str()) {
                return None;
            }
        }
        let path_match = match &self.path {
            Some(p) => match p.match_length(req.uri.path.as_str()) {
                Some(pm) => pm,
                None => return None,
            },
            None => PathMatch::Prefix(1),
        };
        let mut k: usize = 0;
        while k < self.headers.len()
            invariant
                k <= self.headers@.len(),
                forall|j: int| 0 <= j < k ==> #[trigger] self.headers@[j].spec_applies(req@.headers),
            decreases self.headers@.len() - k,
        {
            if !self.headers[k].is_match(&req.headers) {
                return None;
            }
            k = k + 1;
        }
        let mut k: usize = 0;
        while k < self.query_params.len()
            invariant
                k <= self.query_params@.len(),
                forall|j: int|
                    0 <= j < k ==> #[trigger] self.query_params@[j].spec_applies(req@.uri.query),
            decreases self.query_params@.len() - k,
        {
            if !self.query_params[k].is_match(&req.uri.query) {
                return None;
            }
            k = k + 1;
        }
        Some(
            RequestMatch {
                path_match,
                headers: self.headers.len(),
                query_params: self.query_params.len(),
                method: self.method.is_some(),
            },
        )
    }

    fn default_summary() -> (r: RequestMatch) {
        RequestMatch::default()
    }
}

} // verus!

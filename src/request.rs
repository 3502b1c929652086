//! The request as the matchers see it: method, URI parts and headers, held as
//! plain text.
use vstd::prelude::*;
use crate::text::{same_name, same_name_spec};

verus! {

pub open spec fn opt_text(o: Option<String>) -> Option<Seq<char>> {
    match o {
        Some(s) => Some(s@),
        None => None,
    }
}

/// Header entries in order, each a name and a value.
pub type HeadersView = Seq<(Seq<char>, Seq<char>)>;

/// The request's header collection. A name may hold several values; the
/// order of entries is kept.
pub struct HeaderMap {
    pub entries: Vec<(String, String)>,
}

impl View for HeaderMap {
    type V = HeadersView;

    open spec fn view(&self) -> HeadersView {
        self.entries@.map_values(|e: (String, String)| (e.0@, e.1@))
    }
}

/// The entries of `h` whose name is not `name` (in any ASCII case), in
/// order.
pub open spec fn without_name(h: HeadersView, name: Seq<char>) -> HeadersView
    decreases h.len(),
{
    if h.len() == 0 {
        h
    } else {
        let rest = without_name(h.drop_last(), name);
        if same_name_spec(h.last().0, name) {
            rest
        } else {
            rest.push(h.last())
        }
    }
}

impl HeaderMap {
    pub fn new() -> (r: HeaderMap)
        ensures
            r@ == Seq::<(Seq<char>, Seq<char>)>::empty(),
    {
        let r = HeaderMap { entries: Vec::new() };
        assert(r@ =~= Seq::<(Seq<char>, Seq<char>)>::empty());
        r
    }

    /// Adds a value for `name`, keeping the values already there.
    pub fn append(&mut self, name: &str, value: &str)
        ensures
            final(self)@ == old(self)@.push((name@, value@)),
    {
        self.entries.push((name.to_owned(), value.to_owned()));
        assert(self@ =~= old(self)@.push((name@, value@)));
    }

    /// Drops every value of `name`.
    pub fn remove(&mut self, name: &str)
        ensures
            final(self)@ == without_name(old(self)@, name@),
    {
        let ghost h = self@;
        let mut kept: Vec<(String, String)> = Vec::new();
        let mut i: usize = 0;
        while i < self.entries.len()
            invariant
                self@ == h,
                i <= h.len(),
                h.len() == self.entries@.len(),
                (HeaderMap { entries: kept })@ == without_name(h.take(i as int), name@),
            decreases self.entries@.len() - i,
        {
            proof {
                assert(h.take(i + 1).drop_last() =~= h.take(i as int));
            }
            let e = &self.entries[i];
            if !same_name(e.0.as_str(), name) {
                let ghost before = kept@;
                kept.push((e.0.clone(), e.1.clone()));
                proof {
                    assert(kept@ == before.push(kept@.last()));
                    assert((HeaderMap { entries: kept })@ =~= without_name(
                        h.take(i as int),
                        name@,
                    ).push(h[i as int]));
                }
            }
            i = i + 1;
        }
        assert(h.take(h.len() as int) =~= h);
        self.entries = kept;
    }

    /// Replaces every value of `name` with the one given.
    pub fn insert(&mut self, name: &str, value: &str)
        ensures
            final(self)@ == without_name(old(self)@, name@).push((name@, value@)),
    {
        self.remove(name);
        self.append(name, value);
    }
}

/// The parts of a request URI.
pub struct Uri {
    pub scheme: Option<String>,
    pub host: Option<String>,
    pub port: Option<u16>,
    pub path: String,
    pub query: Option<String>,
}

pub struct UriView {
    pub scheme: Option<Seq<char>>,
    pub host: Option<Seq<char>>,
    pub port: Option<u16>,
    pub path: Seq<char>,
    pub query: Option<Seq<char>>,
}

impl View for Uri {
    type V = UriView;

    open spec fn view(&self) -> UriView {
        UriView {
            scheme: opt_text(self.scheme),
            host: opt_text(self.host),
            port: self.port,
            path: self.path@,
            query: opt_text(self.query),
        }
    }
}

/// One inbound request: its method, URI and headers.
pub struct Request {
    pub method: String,
    pub uri: Uri,
    pub headers: HeaderMap,
}

pub struct RequestView {
    pub method: Seq<char>,
    pub uri: UriView,
    pub headers: HeadersView,
}

impl View for Request {
    type V = RequestView;

    open spec fn view(&self) -> RequestView {
        RequestView { method: self.method@, uri: self.uri@, headers: self.headers@ }
    }
}

} // verus!

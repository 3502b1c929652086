//! Authorization: which clients, by network address and transport identity,
//! may use a route or server.
use vstd::prelude::*;
use crate::text::same_text;

verus! {

/// A client's IP address.
#[derive(Clone, Copy, Debug, PartialEq, Eq, Structural)]
pub enum Addr {
    V4(u32),
    V6(u128),
}

pub open spec fn cidr_wf(v: (Addr, u8)) -> bool {
    match v.0 {
        Addr::V4(_) => v.1 <= 32,
        Addr::V6(_) => v.1 <= 128,
    }
}

/// `a` lies in the network of address `net.0` and prefix length `net.1`: both
/// are of one family and agree on the first `net.1` bits.
pub open spec fn in_cidr(net: (Addr, u8), a: Addr) -> bool {
    match (net.0, a) {
        (Addr::V4(n), Addr::V4(x)) => net.1 == 0 || (n >> ((32 - net.1) as u32)) == (x >> ((32
            - net.1) as u32)),
        (Addr::V6(n), Addr::V6(x)) => net.1 == 0 || (n >> ((128 - net.1) as u128)) == (x >> ((128
            - net.1) as u128)),
        _ => false,
    }
}

/// An address range: an address and the length of its network prefix.
#[derive(Clone, Copy, Debug, PartialEq, Eq)]
pub struct Cidr {
    addr: Addr,
    prefix_len: u8,
}

impl View for Cidr {
    type V = (Addr, u8);

    closed spec fn view(&self) -> (Addr, u8) {
        (self.addr, self.prefix_len)
    }
}

impl Cidr {
    #[verifier::type_invariant]
    spec fn inv(&self) -> bool {
        cidr_wf((self.addr, self.prefix_len))
    }

    /// A range of `addr` and its first `prefix_len` bits; `None` where the
    /// prefix is longer than the address.
    pub fn new(addr: Addr, prefix_len: u8) -> (r: Option<Cidr>)
        ensures
            r is Some == cidr_wf((addr, prefix_len)),
            r matches Some(c) ==> c@ == (addr, prefix_len),
    {
        let fits = match addr {
            Addr::V4(_) => prefix_len <= 32,
            Addr::V6(_) => prefix_len <= 128,
        };
        if fits {
            Some(Cidr { addr, prefix_len })
        } else {
            None
        }
    }

    pub fn contains(&self, a: Addr) -> (r: bool)
        ensures
            r == in_cidr(self@, a),
    {
        proof {
            use_type_invariant(self);
        }
        if self.prefix_len == 0 {
            return match (self.addr, a) {
                (Addr::V4(_), Addr::V4(_)) => true,
                (Addr::V6(_), Addr::V6(_)) => true,
                _ => false,
            };
        }
        match (self.addr, a) {
            (Addr::V4(n), Addr::V4(x)) => {
                let shift: u32 = (32 - self.prefix_len) as u32;
                (n >> shift) == (x >> shift)
            },
            (Addr::V6(n), Addr::V6(x)) => {
                let shift: u128 = (128 - self.prefix_len) as u128;
                (n >> shift) == (x >> shift)
            },
            _ => false,
        }
    }
}

/// A network with exceptions: an address belongs to it when it lies in `net`
/// and in none of `except`.
pub struct Network {
    pub net: Cidr,
    pub except: Vec<Cidr>,
}

impl Network {
    pub open spec fn spec_contains(&self, a: Addr) -> bool {
        &&& in_cidr(self.net@, a)
        &&& forall|k: int| 0 <= k < self.except@.len() ==> !in_cidr(#[trigger] self.except@[k]@, a)
    }

    pub fn contains(&self, a: Addr) -> (r: bool)
        ensures
            r == self.spec_contains(a),
    {
        if !self.net.contains(a) {
            return false;
        }
        let mut k: usize = 0;
        while k < self.except.len()
            invariant
                k <= self.except@.len(),
                forall|j: int| 0 <= j < k ==> !in_cidr(#[trigger] self.except@[j]@, a),
            decreases self.except@.len() - k,
        {
            if self.except[k].contains(a) {
                return false;
            }
            k = k + 1;
        }
        true
    }
}

/// The labels `[a, b, ...]` written `.a.b...`; no labels give empty text.
pub open spec fn dotted(parts: Seq<Seq<char>>) -> Seq<char>
    decreases parts.len(),
{
    if parts.len() == 0 {
        Seq::empty()
    } else {
        dotted(parts.drop_last()) + seq!['.'] + parts.last()
    }
}

/// A domain suffix that identities may end with.
pub struct Suffix {
    ends_with: String,
}

impl View for Suffix {
    type V = Seq<char>;

    closed spec fn view(&self) -> Seq<char> {
        self.ends_with@
    }
}

/// `name` ends with `suffix`.
pub open spec fn ends_with(name: Seq<char>, suffix: Seq<char>) -> bool {
    suffix.len() <= name.len() && name.subrange(name.len() - suffix.len(), name.len() as int)
        == suffix
}

impl Suffix {
    /// The suffix of the labels given, e.g. `["ns", "svc"]` gives `.ns.svc`.
    pub fn from(parts: Vec<String>) -> (r: Suffix)
        ensures
            r@ == dotted(crate::text::views(parts@)),
    {
        let mut s = String::new();
        let mut k: usize = 0;
        while k < parts.len()
            invariant
                k <= parts@.len(),
                s@ == dotted(crate::text::views(parts@).take(k as int)),
            decreases parts@.len() - k,
        {
            proof {
                let v = crate::text::views(parts@);
                assert(v.take(k + 1).drop_last() =~= v.take(k as int));
                assert(v[k as int] == parts@[k as int]@);
            }
            s.append(".");
            s.append(parts[k].as_str());
            proof {
                reveal_strlit(".");
                assert("."@ =~= seq!['.']);
            }
            k = k + 1;
        }
        proof {
            let v = crate::text::views(parts@);
            assert(v.take(v.len() as int) =~= v);
        }
        Suffix { ends_with: s }
    }

    pub fn contains(&self, name: &str) -> (r: bool)
        ensures
            r == ends_with(name@, self@),
    {
        let n = name.unicode_len();
        let m = self.ends_with.as_str().unicode_len();
        if m > n {
            return false;
        }
        same_text(name.substring_char(n - m, n), self.ends_with.as_str())
    }
}

/// How a client must authenticate.
pub enum Authentication {
    /// Any client, with or without TLS.
    Unauthenticated,
    /// Any client whose connection is TLS, whatever its identity.
    TlsUnauthenticated,
    /// A TLS client whose identity is listed or ends with a listed suffix.
    TlsAuthenticated { identities: Vec<String>, suffixes: Vec<Suffix> },
}

/// The transport security of a client connection.
pub enum ClientTls {
    /// No TLS was established.
    NoTls,
    /// TLS was established, with the client's verified identity if it gave
    /// one.
    Established { client_id: Option<String> },
}

/// Where a policy object came from: its group, kind and name.
pub struct Meta {
    pub group: String,
    pub kind: String,
    pub name: String,
}

impl Meta {
    pub fn duplicate(&self) -> (r: Meta)
        ensures
            r == *self,
    {
        Meta { group: self.group.clone(), kind: self.kind.clone(), name: self.name.clone() }
    }
}

/// One entry of an authorization list.
pub struct Authorization {
    pub networks: Vec<Network>,
    pub authentication: Authentication,
    pub meta: Meta,
}

pub open spec fn identity_accepted(
    identities: Seq<String>,
    suffixes: Seq<Suffix>,
    id: Seq<char>,
) -> bool {
    (exists|k: int| 0 <= k < identities.len() && #[trigger] identities[k]@ == id) || (exists|k: int|
        0 <= k < suffixes.len() && ends_with(id, #[trigger] suffixes[k]@))
}

impl Authentication {
    pub open spec fn spec_accepts(&self, tls: ClientTls) -> bool {
        match self {
            Authentication::Unauthenticated => true,
            Authentication::TlsUnauthenticated => tls is Established,
            Authentication::TlsAuthenticated { identities, suffixes } => match tls {
                ClientTls::Established { client_id: Some(id) } => identity_accepted(
                    identities@,
                    suffixes@,
                    id@,
                ),
                _ => false,
            },
        }
    }

    pub fn accepts(&self, tls: &ClientTls) -> (r: bool)
        ensures
            r == self.spec_accepts(*tls),
    {
        match self {
            Authentication::Unauthenticated => true,
            Authentication::TlsUnauthenticated => match tls {
                ClientTls::Established { .. } => true,
                ClientTls::NoTls => false,
            },
            Authentication::TlsAuthenticated { identities, suffixes } => match tls {
                ClientTls::Established { client_id: Some(id) } => {
                    let mut k: usize = 0;
                    while k < identities.len()
                        invariant
                            k <= identities@.len(),
                            *self == (Authentication::TlsAuthenticated {
                                identities: *identities,
                                suffixes: *suffixes,
                            }),
                            *tls == (ClientTls::Established { client_id: Some(*id) }),
                            forall|j: int| 0 <= j < k ==> #[trigger] identities@[j]@ != id@,
                        decreases identities@.len() - k,
                    {
                        if same_text(identities[k].as_str(), id.as_str()) {
                            assert(identities@[k as int]@ == id@);
                            return true;
                        }
                        k = k + 1;
                    }
                    let mut k: usize = 0;
                    while k < suffixes.len()
                        invariant
                            k <= suffixes@.len(),
                            *self == (Authentication::TlsAuthenticated {
                                identities: *identities,
                                suffixes: *suffixes,
                            }),
                            *tls == (ClientTls::Established { client_id: Some(*id) }),
                            forall|j: int| 0 <= j < identities@.len() ==> #[trigger] identities@[j]@ != id@,
                            forall|j: int| 0 <= j < k ==> !ends_with(id@, #[trigger] suffixes@[j]@),
                        decreases suffixes@.len() - k,
                    {
                        if suffixes[k].contains(id.as_str()) {
                            assert(ends_with(id@, suffixes@[k as int]@));
                            return true;
                        }
                        k = k + 1;
                    }
                    false
                },
                _ => false,
            },
        }
    }
}

impl Authorization {
    /// The client is in one of the networks and authenticates as required.
    pub open spec fn spec_authorizes(&self, client: Addr, tls: ClientTls) -> bool {
        &&& exists|k: int| 0 <= k < self.networks@.len() && #[trigger] self.networks@[k].spec_contains(client)
        &&& self.authentication.spec_accepts(tls)
    }

    pub fn is_authorized(&self, client: Addr, tls: &ClientTls) -> (r: bool)
        ensures
            r == self.spec_authorizes(client, *tls),
    {
        let mut k: usize = 0;
        while k < self.networks.len()
            invariant
                k <= self.networks@.len(),
                forall|j: int| 0 <= j < k ==> !#[trigger] self.networks@[j].spec_contains(client),
            decreases self.networks@.len() - k,
        {
            if self.networks[k].contains(client) {
                assert(self.networks@[k as int].spec_contains(client));
                return self.authentication.accepts(tls);
            }
            k = k + 1;
        }
        false
    }
}

/// `i` is the first authorization of `authzs` that admits the client.
pub open spec fn is_first_authorized(authzs: Seq<Authorization>, client: Addr, tls: ClientTls, i: int) -> bool {
    &&& 0 <= i < authzs.len()
    &&& authzs[i].spec_authorizes(client, tls)
    &&& forall|j: int| 0 <= j < i ==> !#[trigger] authzs[j].spec_authorizes(client, tls)
}

pub open spec fn any_authorizes(authzs: Seq<Authorization>, client: Addr, tls: ClientTls) -> bool {
    exists|i: int| 0 <= i < authzs.len() && #[trigger] authzs[i].spec_authorizes(client, tls)
}

/// The labels of a permitted request: the route's and the authorization's.
pub struct RoutePermit {
    pub route: Meta,
    pub authz: Meta,
}

/// A request that no authorization admits.
#[derive(Clone, Copy, Debug, PartialEq, Eq, Structural)]
pub struct HttpRouteUnauthorized {}

/// Admits the client by the first authorization that allows it, or denies it.
pub fn authorize(authzs: &Vec<Authorization>, route: &Meta, client: Addr, tls: &ClientTls) -> (r:
    Result<RoutePermit, HttpRouteUnauthorized>)
    ensures
        r is Ok == any_authorizes(authzs@, client, *tls),
        r matches Ok(p) ==> p.route == *route && exists|i: int|
            is_first_authorized(authzs@, client, *tls, i) && p.authz == authzs@[i].meta,
{
    let mut k: usize = 0;
    while k < authzs.len()
        invariant
            k <= authzs@.len(),
            forall|j: int| 0 <= j < k ==> !#[trigger] authzs@[j].spec_authorizes(client, *tls),
        decreases authzs@.len() - k,
    {
        if authzs[k].is_authorized(client, tls) {
            let permit = RoutePermit { route: route.duplicate(), authz: authzs[k].meta.duplicate() };
            assert(is_first_authorized(authzs@, client, *tls, k as int));
            return Ok(permit);
        }
        k = k + 1;
    }
    Err(HttpRouteUnauthorized {})
}

/// The IPv4 loopback address, `127.0.0.1`.
pub open spec fn loopback_v4() -> Addr {
    Addr::V4(0x7f00_0001)
}

/// The IPv6 loopback address, `::1`.
pub open spec fn loopback_v6() -> Addr {
    Addr::V6(1)
}

/// The implicit authorization of local clients: any client at `127.0.0.1` or
/// `::1`, with or without TLS.
pub open spec fn is_loopback(a: Authorization) -> bool {
    &&& a.networks@.len() == 2
    &&& a.networks@[0].net@ == (loopback_v4(), 32u8)
    &&& a.networks@[0].except@.len() == 0
    &&& a.networks@[1].net@ == (loopback_v6(), 128u8)
    &&& a.networks@[1].except@.len() == 0
    &&& a.authentication is Unauthenticated
}

/// The authorization that admits local clients.
pub fn loopback() -> (r: Authorization)
    ensures
        is_loopback(r),
{
    let v4 = Network { net: Cidr { addr: Addr::V4(0x7f00_0001), prefix_len: 32 }, except: Vec::new() };
    let v6 = Network { net: Cidr { addr: Addr::V6(1), prefix_len: 128 }, except: Vec::new() };
    let mut networks: Vec<Network> = Vec::new();
    networks.push(v4);
    networks.push(v6);
    Authorization {
        networks,
        authentication: Authentication::Unauthenticated,
        meta: Meta {
            group: String::new(),
            kind: "default".to_owned(),
            name: "localhost".to_owned(),
        },
    }
}

/// The authorization list as configured, with the loopback authorization
/// appended, as every list used for a decision has.
pub fn with_loopback(authzs: Vec<Authorization>) -> (r: Vec<Authorization>)
    ensures
        r@.len() == authzs@.len() + 1,
        r@.take(authzs@.len() as int) == authzs@,
        is_loopback(r@.last()),
{
    let mut r = authzs;
    r.push(loopback());
    assert(r@.take(authzs@.len() as int) =~= authzs@);
    r
}

/// A client at a loopback address is admitted by any list that ends with the
/// loopback authorization, with or without TLS and whatever comes before.
pub proof fn lemma_loopback_admitted(authzs: Seq<Authorization>, tls: ClientTls)
    requires
        authzs.len() > 0,
        is_loopback(authzs.last()),
    ensures
        any_authorizes(authzs, loopback_v4(), tls),
        any_authorizes(authzs, loopback_v6(), tls),
{
    let i = authzs.len() - 1;
    let lb = authzs[i];
    assert(lb.networks@[0].spec_contains(loopback_v4()));
    assert(lb.networks@[1].spec_contains(loopback_v6()));
    assert(authzs[i].spec_authorizes(loopback_v4(), tls));
    assert(authzs[i].spec_authorizes(loopback_v6(), tls));
}

} // verus!

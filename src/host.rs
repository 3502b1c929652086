//! Matching a request's host against a route's host names.
use vstd::prelude::*;
use crate::rank::{lex_lt, Ranked};
use crate::text::{lemma_views_push, same_name, same_name_spec, split, split_spec, views};
use crate::request::opt_text;

verus! {

/// A host name a route applies to: one exact name, or a wildcard that
/// matches every name below a domain (held as its labels, last label first).
/// Names compare without regard to ASCII case.
pub enum MatchHost {
    Exact(String),
    Suffix { reverse_labels: Vec<String> },
}

pub enum MatchHostView {
    Exact(Seq<char>),
    Suffix(Seq<Seq<char>>),
}

impl View for MatchHost {
    type V = MatchHostView;

    open spec fn view(&self) -> MatchHostView {
        match self {
            MatchHost::Exact(e) => MatchHostView::Exact(e@),
            MatchHost::Suffix { reverse_labels } => MatchHostView::Suffix(views(reverse_labels@)),
        }
    }
}

pub open spec fn reversed(v: Seq<Seq<char>>) -> Seq<Seq<char>> {
    Seq::new(v.len(), |i: int| v[v.len() - 1 - i])
}

/// `*.example.com` names a wildcard on the labels of `example.com`; any
/// other text names one exact host.
pub open spec fn parse_host_spec(s: Seq<char>) -> MatchHostView {
    if s.len() >= 2 && s[0] == '*' && s[1] == '.' {
        MatchHostView::Suffix(reversed(split_spec(s.subrange(2, s.len() as int), '.')))
    } else {
        MatchHostView::Exact(s)
    }
}

/// How a host name matched: an exact name of some length, or a wildcard
/// domain of some number of labels. Exact matches rank above wildcards; among
/// wildcards, more labels rank higher.
#[derive(Clone, Copy, Debug, PartialEq, Eq, Structural)]
pub enum HostMatch {
    Exact(usize),
    Suffix { matched_labels: usize },
}

impl Ranked for HostMatch {
    open spec fn rank(&self) -> Seq<int> {
        match self {
            HostMatch::Exact(n) => seq![2int, *n as int],
            HostMatch::Suffix { matched_labels } => seq![1int, *matched_labels as int],
        }
    }

    fn is_below(&self, other: &Self) -> (r: bool) {
        let (k0, n0): (u8, usize) = match self {
            HostMatch::Exact(n) => (2, *n),
            HostMatch::Suffix { matched_labels } => (1, *matched_labels),
        };
        let (k1, n1): (u8, usize) = match other {
            HostMatch::Exact(n) => (2, *n),
            HostMatch::Suffix { matched_labels } => (1, *matched_labels),
        };
        proof {
            reveal_with_fuel(lex_lt, 3);
            let a = self.rank();
            let b = other.rank();
            assert(a.drop_first().drop_first().len() == 0);
            assert(b.drop_first().drop_first().len() == 0);
            assert(a.drop_first()[0] == a[1]);
            assert(b.drop_first()[0] == b[1]);
        }
        k0 < k1 || (k0 == k1 && n0 < n1)
    }
}

/// The rank of an optional host match; a route without host names ranks
/// below every host match.
pub open spec fn host_rank(h: Option<HostMatch>) -> Seq<int> {
    match h {
        Some(m) => m.rank(),
        None => seq![0int, 0int],
    }
}

/// The wildcard labels (last label first) are the last labels of `labels`,
/// and `labels` has at least one label more.
pub open spec fn suffix_applies(reverse: Seq<Seq<char>>, labels: Seq<Seq<char>>) -> bool {
    &&& labels.len() > reverse.len()
    &&& forall|i: int|
        0 <= i < reverse.len() ==> same_name_spec(labels[labels.len() - 1 - i], #[trigger] reverse[i])
}

impl MatchHost {
    pub fn parse(s: &str) -> (r: MatchHost)
        ensures
            r@ == parse_host_spec(s@),
    {
        let n = s.unicode_len();
        if n >= 2 && s.get_char(0) == '*' && s.get_char(1) == '.' {
            let parts = split(s.substring_char(2, n), '.');
            let mut rev: Vec<String> = Vec::new();
            let mut i: usize = 0;
            while i < parts.len()
                invariant
                    i <= parts@.len(),
                    views(rev@) == reversed(views(parts@)).take(i as int),
                decreases parts@.len() - i,
            {
                let ghost before = rev@;
                let label = parts[parts.len() - 1 - i].clone();
                rev.push(label);
                proof {
                    lemma_views_push(before, label);
                    assert(views(parts@)[parts@.len() - 1 - i] == parts@[parts@.len() - 1 - i]@);
                    assert(views(rev@) =~= reversed(views(parts@)).take(i + 1));
                }
                i = i + 1;
            }
            proof {
                assert(reversed(views(parts@)).take(i as int) =~= reversed(views(parts@)));
            }
            MatchHost::Suffix { reverse_labels: rev }
        } else {
            MatchHost::Exact(s.to_owned())
        }
    }

    /// How this host name matches `host`, if it does.
    pub open spec fn spec_match(&self, host: Option<Seq<char>>) -> Option<HostMatch> {
        match host {
            None => None,
            Some(h) => match self {
                MatchHost::Exact(e) => if same_name_spec(e@, h) {
                    Some(HostMatch::Exact(h.len() as usize))
                } else {
                    None
                },
                MatchHost::Suffix { reverse_labels } => if suffix_applies(
                    views(reverse_labels@),
                    split_spec(h, '.'),
                ) {
                    Some(HostMatch::Suffix { matched_labels: reverse_labels@.len() as usize })
                } else {
                    None
                },
            },
        }
    }

    pub fn summarize_match(&self, host: &Option<String>) -> (r: Option<HostMatch>)
        ensures
            r == self.spec_match(opt_text(*host)),
    {
        match host {
            None => None,
            Some(h) => match self {
                MatchHost::Exact(e) => {
                    if same_name(e.as_str(), h.as_str()) {
                        Some(HostMatch::Exact(h.as_str().unicode_len()))
                    } else {
                        None
                    }
                },
                MatchHost::Suffix { reverse_labels } => {
                    let labels = split(h.as_str(), '.');
                    let n = labels.len();
                    let k = reverse_labels.len();
                    if n <= k {
                        return None;
                    }
                    let mut i: usize = 0;
                    while i < k
                        invariant
                            i <= k < n,
                            opt_text(*host) == Some(h@),
                            *self == (MatchHost::Suffix { reverse_labels: *reverse_labels }),
                            n == labels@.len(),
                            k == reverse_labels@.len(),
                            views(labels@) == split_spec(h@, '.'),
                            forall|j: int|
                                0 <= j < i ==> same_name_spec(labels@[n - 1 - j]@, reverse_labels@[j]@),
                        decreases k - i,
                    {
                        if !same_name(labels[n - 1 - i].as_str(), reverse_labels[i].as_str()) {
                            proof {
                                let rv = views(reverse_labels@);
                                assert(rv[i as int] == reverse_labels@[i as int]@);
                                assert(views(labels@)[n - 1 - i] == labels@[n - 1 - i]@);
                                assert(!same_name_spec(split_spec(h@, '.')[n - 1 - i], rv[i as int]));
                                assert(split_spec(h@, '.').len() == n);
                                assert(!suffix_applies(rv, split_spec(h@, '.')));
                            }
                            return None;
                        }
                        i = i + 1;
                    }
                    proof {
                        let rv = views(reverse_labels@);
                        assert forall|j: int| 0 <= j < rv.len() implies same_name_spec(
                            split_spec(h@, '.')[n - 1 - j],
                            #[trigger] rv[j],
                        ) by {
                            assert(views(labels@)[n - 1 - j] == labels@[n - 1 - j]@);
                        }
                    }
                    Some(HostMatch::Suffix { matched_labels: k })
                },
            },
        }
    }
}

} // verus!

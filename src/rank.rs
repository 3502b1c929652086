//! Specificity ranks and the stable maximum used at every level of route
//! selection.
//!
//! A summary of how well a matcher applied is ranked by a sequence of
//! integers, compared lexicographically: earlier positions dominate, later
//! positions only break ties.
use vstd::prelude::*;

verus! {

/// Strict lexicographic order on integer sequences.
pub open spec fn lex_lt(a: Seq<int>, b: Seq<int>) -> bool
    decreases a.len(),
{
    if a.len() == 0 {
        b.len() > 0
    } else if b.len() == 0 {
        false
    } else {
        a[0] < b[0] || (a[0] == b[0] && lex_lt(a.drop_first(), b.drop_first()))
    }
}

pub proof fn lemma_lex_irreflexive(a: Seq<int>)
    ensures
        !lex_lt(a, a),
    decreases a.len(),
{
    if a.len() > 0 {
        lemma_lex_irreflexive(a.drop_first());
    }
}

pub proof fn lemma_lex_transitive(a: Seq<int>, b: Seq<int>, c: Seq<int>)
    requires
        lex_lt(a, b),
        lex_lt(b, c),
    ensures
        lex_lt(a, c),
    decreases a.len(),
{
    if a.len() > 0 && b.len() > 0 && c.len() > 0 {
        if a[0] == b[0] && b[0] == c[0] {
            lemma_lex_transitive(a.drop_first(), b.drop_first(), c.drop_first());
        }
    }
}

/// Two sequences that are not ordered either way are equal.
pub proof fn lemma_lex_total(a: Seq<int>, b: Seq<int>)
    requires
        !lex_lt(a, b),
        !lex_lt(b, a),
    ensures
        a == b,
    decreases a.len(),
{
    if a.len() > 0 && b.len() > 0 {
        lemma_lex_total(a.drop_first(), b.drop_first());
        assert(a =~= seq![a[0]] + a.drop_first());
        assert(b =~= seq![b[0]] + b.drop_first());
    } else {
        assert(a =~= b);
    }
}

/// Comparing two concatenations whose first parts have the same length
/// compares the first parts, then the second parts.
pub proof fn lemma_lex_concat(a1: Seq<int>, b1: Seq<int>, a2: Seq<int>, b2: Seq<int>)
    requires
        a1.len() == a2.len(),
    ensures
        lex_lt(a1 + b1, a2 + b2) == (lex_lt(a1, a2) || (a1 == a2 && lex_lt(b1, b2))),
    decreases a1.len(),
{
    if a1.len() == 0 {
        assert(a1 + b1 =~= b1);
        assert(a2 + b2 =~= b2);
        assert(a1 =~= a2);
    } else {
        assert((a1 + b1).drop_first() =~= a1.drop_first() + b1);
        assert((a2 + b2).drop_first() =~= a2.drop_first() + b2);
        lemma_lex_concat(a1.drop_first(), b1, a2.drop_first(), b2);
        if a1[0] == a2[0] && a1.drop_first() == a2.drop_first() {
            assert(a1 =~= seq![a1[0]] + a1.drop_first());
            assert(a2 =~= seq![a2[0]] + a2.drop_first());
        }
        if a1 == a2 {
            assert(a1.drop_first() =~= a2.drop_first());
        }
    }
}

/// A value whose specificity is ranked by a sequence of integers.
pub trait Ranked: Sized {
    spec fn rank(&self) -> Seq<int>;

    /// Whether `self` is strictly less specific than `other`.
    fn is_below(&self, other: &Self) -> (r: bool)
        ensures
            r == lex_lt(self.rank(), other.rank()),
    ;
}

pub open spec fn opt_rank<S: Ranked>(o: Option<S>) -> Option<Seq<int>> {
    match o {
        Some(s) => Some(s.rank()),
        None => None,
    }
}

/// Some candidate in `s` applies.
pub open spec fn any_applies(s: Seq<Option<Seq<int>>>) -> bool {
    exists|j: int| 0 <= j < s.len() && #[trigger] s[j] is Some
}

/// `i` is the earliest of the most specific candidates in `s`: no candidate
/// ranks above it, and every earlier candidate ranks strictly below it.
pub open spec fn is_first_best(s: Seq<Option<Seq<int>>>, i: int) -> bool {
    &&& 0 <= i < s.len()
    &&& s[i] is Some
    &&& forall|j: int| 0 <= j < s.len() && #[trigger] s[j] is Some ==> !lex_lt(s[i]->0, s[j]->0)
    &&& forall|j: int| 0 <= j < i && #[trigger] s[j] is Some ==> lex_lt(s[j]->0, s[i]->0)
}

/// The earliest most specific candidate, where one applies.
pub open spec fn first_best(s: Seq<Option<Seq<int>>>) -> Option<int> {
    if any_applies(s) {
        Some(choose|i: int| is_first_best(s, i))
    } else {
        None
    }
}

/// At most one position is the earliest most specific candidate.
pub proof fn lemma_first_best_unique(s: Seq<Option<Seq<int>>>, i: int, k: int)
    requires
        is_first_best(s, i),
        is_first_best(s, k),
    ensures
        i == k,
{
    if i < k {
        assert(s[i] is Some);
        lemma_lex_irreflexive(s[i]->0);
    } else if k < i {
        assert(s[k] is Some);
        lemma_lex_irreflexive(s[k]->0);
    }
}

/// The scan of a stable maximum over the first `n` candidates: the state
/// after each step is the earliest most specific candidate of the prefix.
pub open spec fn scan_state(s: Seq<Option<Seq<int>>>, n: int, best: Option<int>) -> bool {
    match best {
        None => !any_applies(s.take(n)),
        Some(b) => is_first_best(s.take(n), b),
    }
}

/// One step of the stable maximum: a candidate replaces the running best only
/// when it ranks strictly above it.
pub proof fn lemma_scan_step(s: Seq<Option<Seq<int>>>, n: int, best: Option<int>)
    requires
        0 <= n < s.len(),
        scan_state(s, n, best),
    ensures
        scan_state(
            s,
            n + 1,
            match s[n] {
                None => best,
                Some(c) => match best {
                    None => Some(n),
                    Some(b) => if lex_lt(s[b]->0, c) {
                        Some(n)
                    } else {
                        Some(b)
                    },
                },
            },
        ),
{
    let p = s.take(n);
    let q = s.take(n + 1);
    assert forall|j: int| 0 <= j < n implies q[j] == p[j] by {}
    assert(q[n] == s[n]);
    match s[n] {
        None => {
            match best {
                None => {
                    assert(!any_applies(q)) by {
                        assert forall|j: int| 0 <= j < q.len() implies !(#[trigger] q[j] is Some) by {
                            if j < n {
                                assert(q[j] == p[j]);
                            }
                        }
                    }
                },
                Some(b) => {
                    assert(is_first_best(q, b)) by {
                        assert forall|j: int| 0 <= j < q.len() && #[trigger] q[j] is Some implies !lex_lt(q[b]->0, q[j]->0) by {
                            assert(p[j] is Some);
                        }
                    }
                },
            }
        },
        Some(c) => {
            match best {
                None => {
                    assert(is_first_best(q, n)) by {
                        assert forall|j: int| 0 <= j < q.len() && #[trigger] q[j] is Some implies !lex_lt(q[n]->0, q[j]->0) by {
                            if j < n {
                                assert(p[j] is Some);
                                assert(any_applies(p));
                            } else {
                                lemma_lex_irreflexive(c);
                            }
                        }
                        assert forall|j: int| 0 <= j < n && #[trigger] q[j] is Some implies lex_lt(q[j]->0, q[n]->0) by {
                            assert(p[j] is Some);
                            assert(any_applies(p));
                        }
                    }
                },
                Some(b) => {
                    let bb = s[b]->0;
                    assert(p[b] == s[b]);
                    if lex_lt(bb, c) {
                        assert(is_first_best(q, n)) by {
                            assert forall|j: int| 0 <= j < q.len() && #[trigger] q[j] is Some implies !lex_lt(q[n]->0, q[j]->0) by {
                                if j < n {
                                    assert(p[j] is Some);
                                    let cj = p[j]->0;
                                    assert(!lex_lt(bb, cj));
                                    if lex_lt(c, cj) {
                                        lemma_lex_transitive(bb, c, cj);
                                    }
                                } else {
                                    lemma_lex_irreflexive(c);
                                }
                            }
                            assert forall|j: int| 0 <= j < n && #[trigger] q[j] is Some implies lex_lt(q[j]->0, q[n]->0) by {
                                assert(p[j] is Some);
                                let cj = p[j]->0;
                                if j < b {
                                    lemma_lex_transitive(cj, bb, c);
                                } else if j == b {
                                } else {
                                    assert(!lex_lt(bb, cj));
                                    if lex_lt(cj, bb) {
                                        lemma_lex_transitive(cj, bb, c);
                                    } else {
                                        lemma_lex_total(cj, bb);
                                    }
                                }
                            }
                        }
                    } else {
                        assert(is_first_best(q, b)) by {
                            assert forall|j: int| 0 <= j < q.len() && #[trigger] q[j] is Some implies !lex_lt(q[b]->0, q[j]->0) by {
                                if j < n {
                                    assert(p[j] is Some);
                                }
                            }
                            assert forall|j: int| 0 <= j < b && #[trigger] q[j] is Some implies lex_lt(q[j]->0, q[b]->0) by {
                                assert(p[j] is Some);
                            }
                        }
                    }
                },
            }
        },
    }
}

/// At the end of the scan the running best is the earliest most specific
/// candidate of the whole sequence.
pub proof fn lemma_scan_done(s: Seq<Option<Seq<int>>>, best: Option<int>)
    requires
        scan_state(s, s.len() as int, best),
    ensures
        best == first_best(s),
{
    assert(s.take(s.len() as int) =~= s);
    match best {
        None => {},
        Some(b) => {
            assert(s[b] is Some);
            assert(any_applies(s));
            let c = choose|i: int| is_first_best(s, i);
            lemma_first_best_unique(s, b, c);
        },
    }
}

/// The running best of a stable maximum after the first `n` candidates.
pub open spec fn scan_result(s: Seq<Option<Seq<int>>>, n: int) -> Option<int>
    decreases n,
{
    if n <= 0 {
        None
    } else {
        let best = scan_result(s, n - 1);
        match s[n - 1] {
            None => best,
            Some(c) => match best {
                None => Some(n - 1),
                Some(b) => if lex_lt(s[b]->0, c) {
                    Some(n - 1)
                } else {
                    Some(b)
                },
            },
        }
    }
}

pub proof fn lemma_scan_result(s: Seq<Option<Seq<int>>>, n: int)
    requires
        0 <= n <= s.len(),
    ensures
        scan_state(s, n, scan_result(s, n)),
    decreases n,
{
    if n == 0 {
        lemma_scan_start(s);
    } else {
        lemma_scan_result(s, n - 1);
        lemma_scan_step(s, n - 1, scan_result(s, n - 1));
    }
}

/// Where some candidate applies, an earliest most specific one exists.
pub proof fn lemma_first_best_exists(s: Seq<Option<Seq<int>>>)
    requires
        any_applies(s),
    ensures
        first_best(s) matches Some(i) && is_first_best(s, i),
{
    lemma_scan_result(s, s.len() as int);
    lemma_scan_done(s, scan_result(s, s.len() as int));
    assert(s.take(s.len() as int) =~= s);
}

/// The scan starts from an empty prefix, where nothing applies.
pub proof fn lemma_scan_start(s: Seq<Option<Seq<int>>>)
    ensures
        scan_state(s, 0, None),
{
    assert(s.take(0).len() == 0);
}


pub open spec fn ranks_of<S: Ranked>(c: Seq<Option<S>>) -> Seq<Option<Seq<int>>> {
    c.map_values(|o: Option<S>| opt_rank(o))
}

/// The most specific of the candidates that apply, the earliest on ties.
pub open spec fn best_of<S: Ranked>(c: Seq<Option<S>>) -> Option<S> {
    match first_best(ranks_of(c)) {
        Some(i) => c[i],
        None => None,
    }
}

pub open spec fn index_of<S>(best: Option<(S, usize)>) -> Option<int> {
    match best {
        Some((_, b)) => Some(b as int),
        None => None,
    }
}

/// The running state of a stable maximum after `n` of the candidates `c`.
pub open spec fn scanned<S: Ranked>(c: Seq<Option<S>>, n: int, best: Option<(S, usize)>) -> bool {
    &&& scan_state(ranks_of(c), n, index_of(best))
    &&& best matches Some((v, b)) ==> b < n && c[b as int] == Some(v)
}

/// One step of the stable maximum: candidate `i` replaces the running best
/// only when it is strictly more specific.
pub(crate) fn keep_best<S: Ranked>(
    best: Option<(S, usize)>,
    cand: Option<S>,
    i: usize,
    Ghost(c): Ghost<Seq<Option<S>>>,
) -> (r: Option<(S, usize)>)
    requires
        i < c.len(),
        c[i as int] == cand,
        scanned(c, i as int, best),
    ensures
        scanned(c, i + 1, r),
{
    proof {
        lemma_scan_step(ranks_of(c), i as int, index_of(best));
    }
    match cand {
        None => best,
        Some(v) => match best {
            None => Some((v, i)),
            Some((bv, b)) => {
                if bv.is_below(&v) {
                    Some((v, i))
                } else {
                    Some((bv, b))
                }
            },
        },
    }
}

/// The end of a stable maximum over all of `c`.
pub proof fn lemma_scanned_done<S: Ranked>(c: Seq<Option<S>>, best: Option<(S, usize)>)
    requires
        scanned(c, c.len() as int, best),
    ensures
        best_of(c) == match best {
            Some((v, _)) => Some(v),
            None => None,
        },
        index_of(best) == first_best(ranks_of(c)),
{
    lemma_scan_done(ranks_of(c), index_of(best));
}

pub proof fn lemma_scanned_start<S: Ranked>(c: Seq<Option<S>>)
    ensures
        scanned(c, 0, None),
{
    lemma_scan_start(ranks_of(c));
}

} // verus!

//! Character-level text operations used by the matchers.
use vstd::prelude::*;
use vstd::string::*;

verus! {

/// The first position at or after `from` that holds `sep`, or the length of
/// `s` where there is none.
pub open spec fn seg_end(s: Seq<char>, sep: char, from: int) -> int
    decreases s.len() - from,
{
    if from >= s.len() {
        s.len() as int
    } else if s[from] == sep {
        from
    } else {
        seg_end(s, sep, from + 1)
    }
}

/// The pieces of `s` from `from` on, cut at every `sep` (as `str::split`).
pub open spec fn split_from(s: Seq<char>, sep: char, from: int) -> Seq<Seq<char>>
    decreases s.len() - from
    via split_from_decreases
{
    let e = seg_end(s, sep, from);
    if from >= s.len() || e >= s.len() {
        seq![s.subrange(from, s.len() as int)]
    } else {
        seq![s.subrange(from, e)] + split_from(s, sep, e + 1)
    }
}

#[via_fn]
proof fn split_from_decreases(s: Seq<char>, sep: char, from: int) {
    lemma_seg_end_bounds(s, sep, from);
}

pub proof fn lemma_seg_end_bounds(s: Seq<char>, sep: char, from: int)
    ensures
        from <= s.len() ==> from <= seg_end(s, sep, from) <= s.len(),
        from >= s.len() ==> seg_end(s, sep, from) == s.len(),
        0 <= from < seg_end(s, sep, from) ==> s[from] != sep,
        0 <= from && seg_end(s, sep, from) < s.len() ==> s[seg_end(s, sep, from)] == sep,
    decreases s.len() - from,
{
    if from < s.len() && s[from] != sep {
        lemma_seg_end_bounds(s, sep, from + 1);
    }
}

/// The pieces of `s` cut at every `sep`; there is always at least one.
pub open spec fn split_spec(s: Seq<char>, sep: char) -> Seq<Seq<char>> {
    split_from(s, sep, 0)
}

pub open spec fn views(v: Seq<String>) -> Seq<Seq<char>> {
    v.map_values(|p: String| p@)
}

pub proof fn lemma_views_push(v: Seq<String>, x: String)
    ensures
        views(v.push(x)) == views(v).push(x@),
{
    assert(views(v.push(x)) =~= views(v).push(x@));
}

pub proof fn lemma_seg_end_skip(s: Seq<char>, sep: char, from: int, i: int)
    requires
        0 <= from <= i <= s.len(),
        forall|k: int| from <= k < i ==> s[k] != sep,
    ensures
        seg_end(s, sep, from) == seg_end(s, sep, i),
    decreases i - from,
{
    if from < i {
        lemma_seg_end_skip(s, sep, from + 1, i);
    }
}

/// Cuts `s` at every occurrence of `sep`.
pub fn split(s: &str, sep: char) -> (r: Vec<String>)
    ensures
        views(r@) == split_spec(s@, sep),
{
    let n = s.unicode_len();
    let mut parts: Vec<String> = Vec::new();
    let mut start: usize = 0;
    let mut i: usize = 0;
    while i < n
        invariant
            n == s@.len(),
            start <= i <= n,
            forall|k: int| start <= k < i ==> s@[k] != sep,
            views(parts@) + split_from(s@, sep, start as int) == split_spec(s@, sep),
        decreases n - i,
    {
        if s.get_char(i) == sep {
            proof {
                lemma_seg_end_skip(s@, sep, start as int, i as int);
            }
            let piece = s.substring_char(start, i).to_owned();
            let ghost old_parts = parts@;
            parts.push(piece);
            proof {
                assert(views(parts@) =~= views(old_parts).push(piece@));
                assert(split_from(s@, sep, start as int) == seq![piece@] + split_from(
                    s@,
                    sep,
                    i + 1,
                ));
                assert(views(parts@) + split_from(s@, sep, (i + 1) as int) =~= views(old_parts)
                    + split_from(s@, sep, start as int));
            }
            start = i + 1;
        }
        i = i + 1;
    }
    proof {
        lemma_seg_end_skip(s@, sep, start as int, n as int);
    }
    let piece = s.substring_char(start, n).to_owned();
    let ghost old_parts = parts@;
    parts.push(piece);
    proof {
        assert(split_from(s@, sep, start as int) == seq![piece@]);
        assert(views(parts@) =~= views(old_parts) + seq![piece@]);
    }
    parts
}

/// Whether `s` begins with `prefix`.
pub fn starts_with(s: &str, prefix: &str) -> (r: bool)
    ensures
        r == (prefix@.len() <= s@.len() && s@.subrange(0, prefix@.len() as int) == prefix@),
{
    let n = s.unicode_len();
    let m = prefix.unicode_len();
    if m > n {
        return false;
    }
    let head = s.substring_char(0, m).to_owned();
    let p = prefix.to_owned();
    head == p
}

/// The code of `c` with ASCII capitals made small.
pub open spec fn ascii_lower(c: char) -> u32 {
    if 'A' <= c && c <= 'Z' {
        (c as u32 + 32) as u32
    } else {
        c as u32
    }
}

/// Header names compare without regard to ASCII case.
pub open spec fn same_name_spec(a: Seq<char>, b: Seq<char>) -> bool {
    a.len() == b.len() && forall|i: int| 0 <= i < a.len() ==> ascii_lower(#[trigger] a[i]) == ascii_lower(b[i])
}

fn lower_char(c: char) -> (r: u32)
    ensures
        r == ascii_lower(c),
{
    if 'A' <= c && c <= 'Z' {
        c as u32 + 32
    } else {
        c as u32
    }
}

/// Equality of header names, ignoring ASCII case.
pub fn same_name(a: &str, b: &str) -> (r: bool)
    ensures
        r == same_name_spec(a@, b@),
{
    let n = a.unicode_len();
    if n != b.unicode_len() {
        return false;
    }
    let mut i: usize = 0;
    while i < n
        invariant
            i <= n == a@.len() == b@.len(),
            forall|k: int| 0 <= k < i ==> ascii_lower(#[trigger] a@[k]) == ascii_lower(b@[k]),
        decreases n - i,
    {
        if lower_char(a.get_char(i)) != lower_char(b.get_char(i)) {
            return false;
        }
        i = i + 1;
    }
    true
}

/// Text equality.
pub fn same_text(a: &str, b: &str) -> (r: bool)
    ensures
        r == (a@ == b@),
{
    let x = a.to_owned();
    let y = b.to_owned();
    x == y
}

} // verus!

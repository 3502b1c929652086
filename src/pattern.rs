//! Regular expressions, as the `regex` crate defines them.
use vstd::prelude::*;
use vstd::utf8::encode_utf8;

verus! {

/// Whether `pattern` is a regular expression that the `regex` crate accepts.
pub uninterp spec fn regex_compiles(pattern: Seq<char>) -> bool;

/// The leftmost-first match of `pattern` in `text`, as start and end byte
/// offsets, or `None` where it has none.
pub uninterp spec fn regex_find(pattern: Seq<char>, text: Seq<char>) -> Option<(int, int)>;

/// Relies on `regex::Regex::new`: `Ok` exactly when the pattern is valid.
#[verifier::external_body]
fn compiles(pattern: &str) -> (r: bool)
    ensures
        r == regex_compiles(pattern@),
{
    regex::Regex::new(pattern).is_ok()
}

/// Relies on `regex::Regex::new` and `regex::Regex::find`: the byte span of
/// the leftmost-first match of the pattern in the text.
#[verifier::external_body]
fn find_span(pattern: &str, text: &str) -> (r: Option<(usize, usize)>)
    ensures
        match r {
            Some((a, b)) => regex_find(pattern@, text@) == Some((a as int, b as int)),
            None => regex_find(pattern@, text@) is None,
        },
{
    match regex::Regex::new(pattern) {
        Ok(re) => match re.find(text) {
            Some(m) => Some((m.start(), m.end())),
            None => None,
        },
        Err(_) => None,
    }
}

/// The number of bytes that `text` takes in UTF-8.
pub open spec fn byte_len(text: Seq<char>) -> int {
    encode_utf8(text).len() as int
}

/// The pattern matches the whole of `text`: its match is anchored at both
/// ends.
pub open spec fn matches_whole(pattern: Seq<char>, text: Seq<char>) -> bool {
    regex_find(pattern, text) == Some((0int, byte_len(text)))
}

/// A regular expression that compiled.
pub struct Pattern {
    source: String,
}

impl Pattern {
    pub closed spec fn source(&self) -> Seq<char> {
        self.source@
    }

    /// Accepts `source` when the `regex` crate accepts it.
    pub fn new(source: &str) -> (r: Option<Pattern>)
        ensures
            r is Some == regex_compiles(source@),
            r matches Some(p) ==> p.source() == source@,
    {
        if compiles(source) {
            Some(Pattern { source: source.to_owned() })
        } else {
            None
        }
    }

    pub fn as_str(&self) -> (r: &str)
        ensures
            r@ == self.source(),
    {
        self.source.as_str()
    }

    /// Whether the pattern matches the whole of `text`.
    pub fn is_match_whole(&self, text: &str) -> (r: bool)
        ensures
            r == matches_whole(self.source(), text@),
    {
        match find_span(self.source.as_str(), text) {
            Some((a, b)) => a == 0 && b == text.as_bytes().len(),
            None => false,
        }
    }
}

} // verus!

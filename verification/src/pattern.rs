//! Trusted bridge to the `regex` crate. Pattern compilation and matching
//! are deterministic functions of the pattern and the text alone, so their
//! results are given names that the callers' contracts speak of.

use vstd::prelude::*;

verus! {

/// Whether the regex compiler accepts a pattern: what `regex::Regex::new`
/// succeeding depends on.
pub uninterp spec fn re_ok(pattern: Seq<char>) -> bool;

/// Whether a pattern matches anywhere in a text: what
/// `regex::Regex::is_match` returns.
pub uninterp spec fn re_match(pattern: Seq<char>, text: Seq<char>) -> bool;

/// The capture groups of the leftmost match, group 0 being the whole
/// match and a non-participating group `None`: what
/// `regex::Regex::captures` yields.
pub uninterp spec fn re_caps(pattern: Seq<char>, text: Seq<char>) -> Seq<Option<Seq<char>>>;

/// The participating named capture groups of the leftmost match, in the
/// pattern's group order, each with its matched text: what
/// `regex::Regex::capture_names` and `regex::Captures::name` yield.
pub uninterp spec fn re_named_caps(pattern: Seq<char>, text: Seq<char>) -> Seq<
    (Seq<char>, Seq<char>),
>;

/// The texts of a list of optional matches.
pub open spec fn caps_view(v: Seq<Option<String>>) -> Seq<Option<Seq<char>>> {
    v.map_values(
        |o: Option<String>|
            match o {
                Some(s) => Some(s@),
                None => None,
            },
    )
}

/// The texts of a list of named matches.
pub open spec fn pairs_view(v: Seq<(String, String)>) -> Seq<(Seq<char>, Seq<char>)> {
    v.map_values(|p: (String, String)| (p.0@, p.1@))
}

/// Relies on `regex::Regex::new`: whether it accepts the pattern, which
/// depends on the pattern alone.
#[verifier::external_body]
pub fn regex_is_valid(pattern: &str) -> (r: bool)
    ensures
        r == re_ok(pattern@),
{
    regex::Regex::new(pattern).is_ok()
}

/// Relies on `regex::Regex::new` and `regex::Regex::is_match`: true if
/// and only if there is a match for the pattern anywhere in the text.
#[verifier::external_body]
pub fn regex_is_match(pattern: &str, text: &str) -> (r: bool)
    requires
        re_ok(pattern@),
    ensures
        r == re_match(pattern@, text@),
{
    regex::Regex::new(pattern).unwrap().is_match(text)
}

/// Relies on `regex::Regex::new` and `regex::Regex::captures`: yields the
/// capture groups of the leftmost match exactly when the pattern matches,
/// a non-participating group as `None`.
#[verifier::external_body]
pub fn regex_captures(pattern: &str, text: &str) -> (r: Option<Vec<Option<String>>>)
    requires
        re_ok(pattern@),
    ensures
        (r is Some) == re_match(pattern@, text@),
        r matches Some(v) ==> caps_view(v@) == re_caps(pattern@, text@),
{
    let re = regex::Regex::new(pattern).unwrap();
    re.captures(text).map(
        |caps| caps.iter().map(|g| g.map(|m| m.as_str().to_owned())).collect(),
    )
}

/// Relies on `regex::Regex::new`, `regex::Regex::capture_names` and
/// `regex::Captures::name`: yields, exactly when the pattern matches, the
/// named groups that participate in the leftmost match with their texts.
#[verifier::external_body]
pub fn regex_named_captures(pattern: &str, text: &str) -> (r: Option<Vec<(String, String)>>)
    requires
        re_ok(pattern@),
    ensures
        (r is Some) == re_match(pattern@, text@),
        r matches Some(v) ==> pairs_view(v@) == re_named_caps(pattern@, text@),
{
    let re = regex::Regex::new(pattern).unwrap();
    re.captures(text).map(
        |caps|
            re.capture_names().flatten().filter_map(
                |n| caps.name(n).map(|m| (n.to_owned(), m.as_str().to_owned())),
            ).collect(),
    )
}

} // verus!

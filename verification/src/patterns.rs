//! Regular expressions, as the `regex_lite` crate understands them.

use crate::text::opt_text;
use vstd::prelude::*;

verus! {

/// Whether `regex_lite::Regex::new` accepts the pattern.
pub uninterp spec fn regex_valid(pattern: Seq<char>) -> bool;

/// What group 1 of the first match of the pattern holds: `None` where the
/// pattern is refused or matches nowhere, `Some(None)` where the group takes
/// no part in the match.
pub uninterp spec fn first_capture(pattern: Seq<char>, text: Seq<char>) -> Option<Option<Seq<char>>>;

/// What group 1 of each match holds, from left to right; `None` where the
/// pattern is refused.
pub uninterp spec fn every_capture(
    pattern: Seq<char>,
    text: Seq<char>,
) -> Option<Seq<Option<Seq<char>>>>;

/// Whether the pattern is accepted and matches somewhere in the text.
pub uninterp spec fn regex_matches(pattern: Seq<char>, text: Seq<char>) -> bool;

/// The texts of a list of optional strings.
pub open spec fn opt_texts(v: Seq<Option<String>>) -> Seq<Option<Seq<char>>> {
    Seq::new(v.len(), |i: int| opt_text(v[i]))
}

/// `regex_lite::Regex::new`: whether the pattern compiles.
#[verifier::external_body]
pub(crate) fn pattern_compiles(pattern: &str) -> (r: bool)
    ensures
        r == regex_valid(pattern@),
{
    regex_lite::Regex::new(pattern).is_ok()
}

/// `regex_lite::Regex::captures` on a freshly compiled pattern: group 1 of the
/// first match. A pattern that does not compile has none.
#[verifier::external_body]
pub(crate) fn capture_first(pattern: &str, text: &str) -> (r: Option<Option<String>>)
    ensures
        match r {
            Some(group) => first_capture(pattern@, text@) == Some(opt_text(group)),
            None => first_capture(pattern@, text@) is None,
        },
        !regex_valid(pattern@) ==> r is None,
{
    let compiled = regex_lite::Regex::new(pattern).ok()?;
    let groups = compiled.captures(text)?;
    Some(groups.get(1).map(|m| m.as_str().to_string()))
}

/// `regex_lite::Regex::captures_iter` on a freshly compiled pattern: group 1
/// of every match, in order. A pattern that does not compile yields `None`.
#[verifier::external_body]
pub(crate) fn capture_every(pattern: &str, text: &str) -> (r: Option<Vec<Option<String>>>)
    ensures
        match r {
            Some(groups) => every_capture(pattern@, text@) == Some(opt_texts(groups@)),
            None => every_capture(pattern@, text@) is None,
        },
        r is Some <==> regex_valid(pattern@),
{
    let compiled = regex_lite::Regex::new(pattern).ok()?;
    Some(compiled.captures_iter(text).map(|c| c.get(1).map(|m| m.as_str().to_string())).collect())
}

/// `regex_lite::Regex::is_match` on a freshly compiled pattern. A pattern that
/// does not compile matches nothing.
#[verifier::external_body]
pub(crate) fn pattern_matches(pattern: &str, text: &str) -> (r: bool)
    ensures
        r == regex_matches(pattern@, text@),
        r ==> regex_valid(pattern@),
{
    regex_lite::Regex::new(pattern).map_or(false, |compiled| compiled.is_match(text))
}

} // verus!

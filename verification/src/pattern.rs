//! Regular expressions. A rule holds its pattern as text; matching is left
//! to the `regex` crate, and what it answers is known here only by name.

use regex::Regex;
use vstd::prelude::*;

verus! {

/// Whether `pattern` is a regular expression that `regex` accepts and that
/// matches somewhere in `text`.
pub uninterp spec fn regex_is_match(pattern: Seq<char>, text: Seq<char>) -> bool;

/// The capture groups of the first match of `pattern` in `text`, the whole
/// match first, each group with the text it matched or `None` where it took
/// no part; `None` where `pattern` is not accepted or matches nowhere.
pub uninterp spec fn regex_captures(pattern: Seq<char>, text: Seq<char>) -> Option<
    Seq<Option<Seq<char>>>,
>;

/// `Regex::new` followed by `Regex::is_match`: whether `pattern` compiles
/// and the compiled expression matches somewhere in `text`. A pattern that
/// does not compile matches nothing.
#[verifier::external_body]
pub(crate) fn is_match(pattern: &str, text: &str) -> (r: bool)
    ensures
        r == regex_is_match(pattern@, text@),
{
    match Regex::new(pattern) {
        Ok(re) => re.is_match(text),
        Err(_) => false,
    }
}

/// `Regex::new` followed by `Regex::captures`: the groups of the first
/// match of the compiled `pattern` in `text`, in the order of
/// `Captures::iter`. A pattern that does not compile captures nothing.
#[verifier::external_body]
pub(crate) fn captures(pattern: &str, text: &str) -> (r: Option<Vec<Option<String>>>)
    ensures
        r.deep_view() == regex_captures(pattern@, text@),
{
    let re = Regex::new(pattern).ok()?;
    let found = re.captures(text)?;
    Some(found.iter().map(|group| group.map(|m| m.as_str().to_string())).collect())
}

} // verus!

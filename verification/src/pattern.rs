//! Regular-expression searches, performed by the `regex` crate.
//!
//! What a search finds is not defined here: each search has a name, and the
//! functions of this library state their results in terms of those names.

use vstd::prelude::*;
use crate::views::{opt_text, opt_texts};

verus! {

/// The successive non-overlapping matches of `pattern` in `text`, in order of
/// occurrence, or `None` where `pattern` does not compile.
pub uninterp spec fn pattern_matches(pattern: Seq<char>, text: Seq<char>) -> Option<Seq<Seq<char>>>;

/// For each successive non-overlapping match of `pattern` in `text`, what its
/// first capture group matched (empty where the group took no part), or
/// `None` where `pattern` does not compile.
pub uninterp spec fn pattern_first_groups(pattern: Seq<char>, text: Seq<char>) -> Option<
    Seq<Seq<char>>,
>;

/// `text` with every non-overlapping match of `pattern` replaced by
/// `replacement`, or `None` where `pattern` does not compile.
pub uninterp spec fn pattern_replaced(
    pattern: Seq<char>,
    text: Seq<char>,
    replacement: Seq<char>,
) -> Option<Seq<char>>;

/// Calls `regex::Regex::new` and `regex::Regex::find_iter`: the substrings
/// that matched, in order of occurrence; nothing where the pattern is refused.
#[verifier::external_body]
pub(crate) fn find_all(pattern: &str, text: &str) -> (r: Option<Vec<String>>)
    ensures
        opt_texts(r) == pattern_matches(pattern@, text@),
{
    match regex::Regex::new(pattern) {
        Ok(re) => Some(re.find_iter(text).map(|m| m.as_str().to_string()).collect()),
        Err(_) => None,
    }
}

/// Calls `regex::Regex::new` and `regex::Regex::captures_iter`: for each
/// match, the substring of its first capture group; nothing where the pattern
/// is refused.
#[verifier::external_body]
pub(crate) fn first_groups(pattern: &str, text: &str) -> (r: Option<Vec<String>>)
    ensures
        opt_texts(r) == pattern_first_groups(pattern@, text@),
{
    match regex::Regex::new(pattern) {
        Ok(re) => Some(
            re.captures_iter(text).map(|c| c.get(1).map_or("", |m| m.as_str()).to_string()).collect(),
        ),
        Err(_) => None,
    }
}

/// Calls `regex::Regex::new` and `regex::Regex::replace_all`: the text with
/// every match replaced; nothing where the pattern is refused.
#[verifier::external_body]
pub(crate) fn replace_all(pattern: &str, text: &str, replacement: &str) -> (r: Option<String>)
    ensures
        opt_text(r) == pattern_replaced(pattern@, text@, replacement@),
{
    match regex::Regex::new(pattern) {
        Ok(re) => Some(re.replace_all(text, replacement).into_owned()),
        Err(_) => None,
    }
}

} // verus!

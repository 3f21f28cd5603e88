//! Regular-expression matching, done by the `regex` crate.
//!
//! What a pattern matches is not modelled: each operation has a name for its
//! result, which depends on the pattern and the texts alone.

use crate::models::schemas::opt_view;
use vstd::prelude::*;

verus! {

/// What `Regex::replace_all` makes of `text` when every match of `pattern`
/// is replaced by `replacement`, in which `$` refers to capture groups; none
/// when `pattern` is not a regular expression.
pub uninterp spec fn regex_replaced(
    pattern: Seq<char>,
    text: Seq<char>,
    replacement: Seq<char>,
) -> Option<Seq<char>>;

/// Compiles `pattern` with `Regex::new` and calls `Regex::replace_all`.
#[verifier::external_body]
pub(crate) fn regex_replace_all(pattern: &str, text: &str, replacement: &str) -> (r: Option<String>)
    ensures
        opt_view(r) == regex_replaced(pattern@, text@, replacement@),
{
    match regex::Regex::new(pattern) {
        Ok(re) => Some(re.replace_all(text, replacement).to_string()),
        Err(_) => None,
    }
}

/// What the first capture group holds in the leftmost match of `pattern` in
/// `text`, as `Regex::captures` finds it; none when `pattern` is not a
/// regular expression, when nothing matches, or when the group took no part
/// in the match.
pub uninterp spec fn regex_first_group(pattern: Seq<char>, text: Seq<char>) -> Option<Seq<char>>;

/// Compiles `pattern` with `Regex::new`, calls `Regex::captures` and takes
/// the first group of the match.
#[verifier::external_body]
pub(crate) fn regex_capture_first(pattern: &str, text: &str) -> (r: Option<String>)
    ensures
        opt_view(r) == regex_first_group(pattern@, text@),
{
    match regex::Regex::new(pattern) {
        Ok(re) => re.captures(text).and_then(|c| c.get(1)).map(|m| m.as_str().to_string()),
        Err(_) => None,
    }
}

} // verus!

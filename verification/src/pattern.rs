//! Searching a text with a regular expression.

use vstd::prelude::*;

verus! {

/// Whether `pattern` is a regular expression that the `regex` crate compiles
/// with its default limits.
pub uninterp spec fn regex_compiles(pattern: Seq<char>) -> bool;

/// Whether the regular expression `pattern` matches somewhere in `haystack`.
pub uninterp spec fn regex_is_match(pattern: Seq<char>, haystack: Seq<char>) -> bool;

/// Compiles `pattern` with `regex::Regex::new` and searches `haystack` with
/// `Regex::is_match`. The result is `None` exactly when the pattern does not
/// compile, else whether there is a match anywhere in the haystack. Neither
/// call panics.
#[verifier::external_body]
pub(crate) fn regex_search(pattern: &str, haystack: &str) -> (found: Option<bool>)
    ensures
        found is Some <==> regex_compiles(pattern@),
        found is Some ==> found == Some(regex_is_match(pattern@, haystack@)),
{
    match regex::Regex::new(pattern) {
        Ok(compiled) => Some(compiled.is_match(haystack)),
        Err(_) => None,
    }
}

} // verus!

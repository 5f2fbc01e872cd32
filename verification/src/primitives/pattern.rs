//! Regular expressions.

use vstd::prelude::*;

verus! {

/// Whether the regular expression `pattern` matches somewhere in `text`,
/// or nothing where `pattern` is not a regular expression.
pub uninterp spec fn regex_matches(pattern: Seq<char>, text: Seq<char>) -> Option<bool>;

/// Calls `Regex::new` and `Regex::is_match` of `regex`. Trusted: the
/// result is whether the pattern matches, and nothing where the pattern
/// does not compile.
#[verifier::external_body]
pub(crate) fn regex_is_match(pattern: &str, text: &str) -> (out: Option<bool>)
    ensures
        out == regex_matches(pattern@, text@),
{
    Some(regex::Regex::new(pattern).ok()?.is_match(text))
}

} // verus!

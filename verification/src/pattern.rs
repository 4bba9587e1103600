//! Regular expressions, as the `regex` crate compiles and runs them.
//!
//! Nothing in this module is proved: it states what the library takes from
//! `regex` on trust.

use vstd::prelude::*;

verus! {

#[verifier::external_type_specification]
#[verifier::external_body]
pub struct ExRegex(regex::Regex);

#[verifier::external_type_specification]
#[verifier::external_body]
pub struct ExRegexError(regex::Error);

/// Whether `regex::Regex::new` accepts `pattern`.
pub uninterp spec fn pattern_is_valid(pattern: Seq<char>) -> bool;

/// The text that `regex::Regex::as_str` returns for `expression`: the pattern
/// it was compiled from.
pub uninterp spec fn pattern_source(expression: regex::Regex) -> Seq<char>;

/// Whether `regex::Regex::is_match` finds a match of the expression compiled
/// from `pattern` anywhere in `text`.
pub uninterp spec fn pattern_accepts(pattern: Seq<char>, text: Seq<char>) -> bool;

/// `regex::Regex::new`: compiles `pattern`. It fails on a pattern that is
/// no regular expression or whose compiled form is over the crate's size
/// limit. The compiled expression remembers the pattern it was made from.
#[verifier::external_body]
pub(crate) fn compile(pattern: &str) -> (compiled: Result<regex::Regex, regex::Error>)
    ensures
        compiled is Ok == pattern_is_valid(pattern@),
        compiled matches Ok(expression) ==> pattern_source(expression) == pattern@,
{
    regex::Regex::new(pattern)
}

/// `regex::Regex::is_match`: whether the expression matches anywhere in `text`.
#[verifier::external_body]
pub(crate) fn is_match(expression: &regex::Regex, text: &str) -> (found: bool)
    ensures
        found == pattern_accepts(pattern_source(*expression), text@),
{
    expression.is_match(text)
}

} // verus!

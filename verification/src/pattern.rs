//! Regular expressions, as far as the command line needs them.
//!
//! A compiled expression is opaque to the verifier. What stands for it in
//! contracts is its language: the set of texts in which it finds a match.

use regex::Regex;
use vstd::prelude::*;

verus! {

/// A compiled regular expression.
#[verifier::external_type_specification]
#[verifier::external_body]
pub struct ExRegex(regex::Regex);

/// Why a pattern could not be compiled.
#[verifier::external_type_specification]
#[verifier::external_body]
pub struct ExRegexError(regex::Error);

/// The texts in which a compiled expression finds a match.
pub uninterp spec fn regex_language(re: Regex) -> Set<Seq<char>>;

/// The language of the expression that `pattern` compiles to; `None` for a
/// pattern that the engine refuses. The engine refuses what is malformed
/// and what compiles to a program over its size limit, which it measures in
/// bytes of the machine it runs on: like the bounds of `usize`, this stands
/// for the outcome on the target that the library is built for.
pub uninterp spec fn pattern_language(pattern: Seq<char>) -> Option<Set<Seq<char>>>;

/// Calls `Regex::new`, which fails on a pattern that is malformed or
/// compiles to a program over the engine's size limit. The contract claims
/// that, on one target, the outcome depends on the pattern alone.
#[verifier::external_body]
pub(crate) fn compile(pattern: &str) -> (r: Result<Regex, regex::Error>)
    ensures
        match r {
            Ok(re) => pattern_language(pattern@) == Some(regex_language(re)),
            Err(_) => pattern_language(pattern@) is None,
        },
{
    Regex::new(pattern)
}

/// Calls `Regex::is_match`: whether there is a match anywhere in `text`.
#[verifier::external_body]
pub(crate) fn is_match(re: &Regex, text: &str) -> (b: bool)
    ensures
        b == regex_language(*re).contains(text@),
{
    re.is_match(text)
}

} // verus!

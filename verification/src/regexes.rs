//! Regular-expression matching for the library, through the `regex` crate.
//! The library only ever asks two questions: whether a pattern is a valid
//! expression, and whether a pattern matches somewhere in a text.  Both are
//! functions of their arguments alone, so each gets a name that the trusted
//! wrappers tie to the crate's answers.

use vstd::prelude::*;

verus! {

/// Whether `regex` accepts `pattern` as a regular expression.
pub uninterp spec fn regex_valid(pattern: Seq<char>) -> bool;

/// Whether `pattern` matches somewhere in `text`, for a valid `pattern`.
pub uninterp spec fn regex_is_match(pattern: Seq<char>, text: Seq<char>) -> bool;

/// Relies on `regex::Regex::new`: it accepts or rejects a pattern by the
/// pattern's text alone.
#[verifier::external_body]
pub fn regex_pattern_valid(pattern: &str) -> (r: bool)
    ensures
        r == regex_valid(pattern@),
{
    regex::Regex::new(pattern).is_ok()
}

/// Relies on `regex::Regex::new` and `regex::Regex::is_match`: whether the
/// compiled pattern matches somewhere in `text` depends on the pattern and
/// the text alone; an invalid pattern matches nothing here.
#[verifier::external_body]
pub fn regex_match(pattern: &str, text: &str) -> (r: bool)
    ensures
        regex_valid(pattern@) ==> r == regex_is_match(pattern@, text@),
        !regex_valid(pattern@) ==> r == false,
{
    match regex::Regex::new(pattern) {
        Ok(re) => re.is_match(text),
        Err(_) => false,
    }
}

} // verus!

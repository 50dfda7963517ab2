//! The one boundary to the regex engine, held behind a trusted contract.

use vstd::prelude::*;

verus! {

/// Whether `pattern` is a well-formed regular expression, as
/// `regex::Regex::new` decides it: a function of the pattern alone.
pub uninterp spec fn regex_is_valid(pattern: Seq<char>) -> bool;

/// Whether `pattern` matches somewhere inside `text`, as
/// `regex::Regex::is_match` decides it: a function of the two texts alone.
pub uninterp spec fn regex_found(pattern: Seq<char>, text: Seq<char>) -> bool;

/// Relies on `regex::Regex::new`, which returns `Err` exactly on patterns that
/// are not valid regular expressions, and on `regex::Regex::is_match`, whose
/// answer depends only on the compiled pattern and the text searched.
#[verifier::external_body]
pub(crate) fn regex_search(pattern: &str, text: &str) -> (r: Option<bool>)
    ensures
        r is Some <==> regex_is_valid(pattern@),
        r matches Some(found) ==> found == regex_found(pattern@, text@),
{
    match regex::Regex::new(pattern) {
        Ok(re) => Some(re.is_match(text)),
        Err(_) => None,
    }
}

} // verus!

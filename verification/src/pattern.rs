use vstd::prelude::*;

verus! {

/// Whether the regular-expression engine accepts `pattern` as a pattern.
/// This depends on the pattern text alone.
pub uninterp spec fn regex_valid(pattern: Seq<char>) -> bool;

/// Whether a match for `pattern` exists anywhere in `text` (an unanchored,
/// substring-style match). This depends on the pattern and the text alone.
pub uninterp spec fn regex_matches(pattern: Seq<char>, text: Seq<char>) -> bool;

/// Relies on regex::Regex::new: compilation succeeds exactly on the patterns
/// the engine accepts (it fails on syntax errors and on patterns over the
/// default size limit), and behaves the same way for the same pattern text.
#[verifier::external_body]
pub(crate) fn regex_is_valid(pattern: &str) -> (r: bool)
    ensures
        r == regex_valid(pattern@),
{
    regex::Regex::new(pattern).is_ok()
}

/// Relies on regex::Regex::new and regex::Regex::is_match: `new` accepts
/// exactly the valid patterns, and `is_match` reports whether a match exists
/// anywhere in the haystack, as a function of pattern and haystack alone.
#[verifier::external_body]
pub(crate) fn regex_match_text(pattern: &str, text: &str) -> (r: Option<bool>)
    ensures
        r is Some <==> regex_valid(pattern@),
        regex_valid(pattern@) ==> r == Some(regex_matches(pattern@, text@)),
{
    match regex::Regex::new(pattern) {
        Ok(re) => Some(re.is_match(text)),
        Err(_) => None,
    }
}

} // verus!

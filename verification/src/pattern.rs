//! Regular-expression matching through the `regex` crate.
use vstd::prelude::*;

verus! {

/// Whether `pattern` compiles as a `regex` pattern and matches somewhere in `text`; `None`
/// when it does not compile.
pub uninterp spec fn regex_is_match_spec(pattern: Seq<char>, text: Seq<char>) -> Option<bool>;

/// The capture groups of the leftmost-first match of `pattern` in `text`, group 0 first,
/// each `None` when it did not take part; `None` when the pattern does not compile or does
/// not match.
pub uninterp spec fn regex_captures_spec(pattern: Seq<char>, text: Seq<char>) -> Option<
    Seq<Option<Seq<char>>>,
>;

/// `regex::Regex::new(pattern)` then `Regex::is_match(text)`. Trusted: the result is the
/// named outcome for the pattern and text; nothing is claimed of it beyond that.
#[verifier::external_body]
pub(crate) fn regex_is_match(pattern: &str, text: &str) -> (r: Option<bool>)
    ensures
        r == regex_is_match_spec(pattern@, text@),
{
    match regex::Regex::new(pattern) {
        Ok(re) => Some(re.is_match(text)),
        Err(_) => None,
    }
}

/// `regex::Regex::new(pattern)` then `Regex::captures(text)`, each group copied out.
/// Trusted: the result is the named outcome for the pattern and text, with one entry per
/// group of the pattern.
#[verifier::external_body]
pub(crate) fn regex_captures(pattern: &str, text: &str) -> (r: Option<Vec<Option<String>>>)
    ensures
        match r {
            Some(groups) => regex_captures_spec(pattern@, text@) == Some(
                groups@.map_values(
                    |g: Option<String>|
                        match g {
                            Some(s) => Some(s@),
                            None => None,
                        },
                ),
            ),
            None => regex_captures_spec(pattern@, text@) is None,
        },
{
    let re = match regex::Regex::new(pattern) {
        Ok(re) => re,
        Err(_) => return None,
    };
    re.captures(text).map(|c| c.iter().map(|m| m.map(|m| m.as_str().to_owned())).collect())
}

} // verus!

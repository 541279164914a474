//! Regular expressions, which the `regex` crate matches.

use vstd::prelude::*;

verus! {

/// What `Regex::captures` of the `regex` crate finds for a pattern in a
/// text: the capture groups of the leftmost match, each with the part of the
/// text that it matched or `None` if it took no part in the match. Group 0
/// is the whole match, the others are counted by their opening bracket.
/// `None` where the pattern matches nowhere in the text, and where
/// `Regex::new` does not take the pattern for a regular expression.
pub uninterp spec fn regex_captures(pattern: Seq<char>, text: Seq<char>) -> Option<
    Seq<Option<Seq<char>>>,
>;

/// Capture groups as sequences of characters.
pub open spec fn groups_view(groups: Option<Vec<Option<String>>>) -> Option<
    Seq<Option<Seq<char>>>,
> {
    match groups {
        Some(parts) => Some(
            Seq::new(
                parts@.len(),
                |i: int|
                    match parts@[i] {
                        Some(part) => Some(part@),
                        None => None,
                    },
            ),
        ),
        None => None,
    }
}

/// Compiles the pattern with `Regex::new` and matches it with
/// `Regex::captures`, both of the `regex` crate. The contract claims only
/// that the groups are a function of the pattern and the text, which
/// [`regex_captures`] names.
#[verifier::external_body]
pub(crate) fn captures(pattern: &str, text: &str) -> (groups: Option<Vec<Option<String>>>)
    ensures
        groups_view(groups) == regex_captures(pattern@, text@),
{
    let regex = regex::Regex::new(pattern).ok()?;
    let found = regex.captures(text)?;
    Some(found.iter().map(|group| group.map(|part| part.as_str().to_string())).collect())
}

} // verus!

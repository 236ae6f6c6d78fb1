//! Regular expressions, matched by the `regex` crate.

use vstd::prelude::*;

verus! {

/// What matching `text` against the regular expression `pattern` yields:
/// `None` where the pattern does not compile, `Some(None)` where it compiles
/// and finds no match, else the capture groups of the leftmost match, group
/// zero first, each with the text it matched or `None` where it took no part.
pub uninterp spec fn regex_captures(pattern: Seq<char>, text: Seq<char>) -> Option<
    Option<Seq<Option<Seq<char>>>>,
>;

/// The text of each group, as a sequence of character sequences.
pub open spec fn groups_view(groups: Seq<Option<String>>) -> Seq<Option<Seq<char>>> {
    Seq::new(
        groups.len(),
        |i: int|
            match groups[i] {
                Some(s) => Some(s@),
                None => None,
            },
    )
}

/// The outcome of a match, with every group's text as a character sequence.
pub open spec fn outcome_view(r: Option<Option<Vec<Option<String>>>>) -> Option<
    Option<Seq<Option<Seq<char>>>>,
> {
    match r {
        None => None,
        Some(None) => Some(None),
        Some(Some(groups)) => Some(Some(groups_view(groups@))),
    }
}

/// Compiles `pattern` with `regex::Regex::new` and matches `text` with
/// `Regex::captures`.
///
/// The contract only gives the outcome its name: the crate's matching is a
/// function of the pattern and the text, and nothing else about it is
/// claimed. The groups come in the order of `Captures::iter`.
#[verifier::external_body]
pub(crate) fn captures(pattern: &str, text: &str) -> (r: Option<Option<Vec<Option<String>>>>)
    ensures
        outcome_view(r) == regex_captures(pattern@, text@),
{
    match regex::Regex::new(pattern) {
        Err(_) => None,
        Ok(re) => Some(
            re.captures(text).map(|c| c.iter().map(|m| m.map(|m| m.as_str().to_owned())).collect()),
        ),
    }
}

} // verus!

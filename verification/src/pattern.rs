//! Matching texts against regular expressions.

use vstd::prelude::*;
use regex::Regex;

verus! {

/// What the first match of a regular expression in a text captures: for
/// each group of the expression, the whole match being group 0, the part
/// of the text that the group matched, if it took part in the match.
/// `None` where the expression is not valid or matches nowhere in the text.
pub uninterp spec fn regex_captures(pattern: Seq<char>, text: Seq<char>) -> Option<
    Seq<Option<Seq<char>>>,
>;

/// The capture groups as sequences of characters.
pub open spec fn groups_view(groups: Seq<Option<String>>) -> Seq<Option<Seq<char>>> {
    Seq::new(
        groups.len(),
        |i: int|
            match groups[i] {
                Some(s) => Some(s@),
                None => None,
            },
    )
}

/// Matches a text against a regular expression with `Regex::new` and
/// `Regex::captures`.
///
/// Trusted: the result is what the regex crate finds for this expression
/// and this text, which depends on nothing else. Each group that took part
/// in the match is copied out as a string.
#[verifier::external_body]
pub(crate) fn captures(pattern: &str, text: &str) -> (found: Option<Vec<Option<String>>>)
    ensures
        match found {
            Some(groups) => regex_captures(pattern@, text@) == Some(groups_view(groups@)),
            None => regex_captures(pattern@, text@) is None,
        },
{
    let expression = Regex::new(pattern).ok()?;
    let found = expression.captures(text)?;
    Some(found.iter().map(|group| group.map(|m| m.as_str().to_owned())).collect())
}

/// The text that group `i` captured, if there is such a group and it took
/// part in the match.
pub open spec fn group(groups: Seq<Option<Seq<char>>>, i: int) -> Option<Seq<char>> {
    if 0 <= i < groups.len() {
        groups[i]
    } else {
        None
    }
}

/// The text that group `i` captured.
pub fn group_text(groups: &Vec<Option<String>>, i: usize) -> (text: Option<&str>)
    ensures
        match text {
            Some(s) => group(groups_view(groups@), i as int) == Some(s@),
            None => group(groups_view(groups@), i as int) is None,
        },
{
    if i < groups.len() {
        match &groups[i] {
            Some(s) => Some(s.as_str()),
            None => None,
        }
    } else {
        None
    }
}

} // verus!

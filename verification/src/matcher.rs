//! Regular expressions, by way of the `regex` crate.

use vstd::prelude::*;

verus! {

/// The capture groups of the leftmost match of `pattern` in `text`, group 0 first; a
/// group that took no part in the match is `None`. The whole is `None` where `pattern`
/// is no regular expression or does not match.
pub uninterp spec fn first_match(pattern: Seq<char>, text: Seq<char>) -> Option<
    Seq<Option<Seq<char>>>,
>;

/// What the capture group `group` holds in each of the successive matches of `pattern`
/// in `text` in which that group took part, in order; empty where `pattern` is no
/// regular expression.
pub uninterp spec fn group_matches(pattern: Seq<char>, text: Seq<char>, group: int) -> Seq<
    Seq<char>,
>;

/// `regex::Regex::new`, then `Regex::captures`, and `Captures::get` for each group.
///
/// Trusted: the result holds the text of each capture group of the leftmost match.
#[verifier::external_body]
pub(crate) fn regex_captures(pattern: &str, text: &str) -> (r: Option<Vec<Option<String>>>)
    ensures
        r.deep_view() == first_match(pattern@, text@),
{
    let re = match regex::Regex::new(pattern) {
        Ok(re) => re,
        Err(_) => return None,
    };
    let caps = re.captures(text)?;
    let mut groups = Vec::new();
    for i in 0..caps.len() {
        match caps.get(i) {
            Some(group) => groups.push(Some(group.as_str().to_string())),
            None => groups.push(None),
        }
    }
    Some(groups)
}

/// `regex::Regex::new`, then `Regex::captures_iter`, and `Captures::get` on each match.
///
/// Trusted: the result holds the text of the group in each match in which it took part.
#[verifier::external_body]
pub(crate) fn regex_group_matches(pattern: &str, text: &str, group: usize) -> (r: Vec<String>)
    ensures
        r.deep_view() == group_matches(pattern@, text@, group as int),
{
    let mut found = Vec::new();
    if let Ok(re) = regex::Regex::new(pattern) {
        for caps in re.captures_iter(text) {
            if let Some(m) = caps.get(group) {
                found.push(m.as_str().to_string());
            }
        }
    }
    found
}

} // verus!

//! Regular expressions, matched by the `regex` crate.

use vstd::prelude::*;

verus! {

/// Whether `regex::bytes::Regex::new` accepts `pattern`.
pub uninterp spec fn regex_compiles(pattern: Seq<char>) -> bool;

/// What `regex::bytes::Regex::captures` reports for the compiled `pattern` on
/// `data`: nothing where the pattern matches nowhere, else the offsets of
/// every capture group of the left-most match, the overall match first and the
/// others in the order of their opening parentheses; a group that took no part
/// in the match has no offsets.
pub uninterp spec fn regex_captures(pattern: Seq<char>, data: Seq<u8>) -> Option<
    Seq<Option<(usize, usize)>>,
>;

/// The groups of one match as the `regex` crate guarantees them: the overall
/// match is present, and every group that took part is an ordered pair of
/// offsets into the data.
pub open spec fn groups_in_bounds(groups: Seq<Option<(usize, usize)>>, len: int) -> bool {
    &&& groups.len() >= 1
    &&& groups[0] is Some
    &&& forall|i: int|
        0 <= i < groups.len() ==> ((#[trigger] groups[i]) matches Some(g) ==> g.0 <= g.1 <= len)
}

/// The groups as a plain sequence.
pub open spec fn groups_view(found: Option<Vec<Option<(usize, usize)>>>) -> Option<
    Seq<Option<(usize, usize)>>,
> {
    match found {
        Some(groups) => Some(groups@),
        None => None,
    }
}

/// Calls `regex::bytes::Regex::new` on `pattern` and, where that succeeds,
/// `Regex::captures` on `data`, and copies the offsets of each group out of
/// the `Captures`.
///
/// Trusted: that the result is `None` exactly where the crate rejects the
/// pattern, that the groups are what the crate reports (both are names,
/// nothing is said of which patterns compile or what they match), and the
/// three guarantees of the crate's documentation: group 0 is always present,
/// `start <= end`, and the offsets index the haystack.
#[verifier::external_body]
pub(crate) fn captures(pattern: &str, data: &[u8]) -> (r: Option<
    Option<Vec<Option<(usize, usize)>>>,
>)
    ensures
        r is Some <==> regex_compiles(pattern@),
        r matches Some(found) ==> groups_view(found) == regex_captures(pattern@, data@),
        r matches Some(Some(groups)) ==> groups_in_bounds(groups@, data@.len() as int),
{
    match regex::bytes::Regex::new(pattern) {
        Ok(re) => Some(
            re.captures(data).map(|c| c.iter().map(|g| g.map(|m| (m.start(), m.end()))).collect()),
        ),
        Err(_) => None,
    }
}

} // verus!

//! The interface to the pattern-set matcher. Nothing in this file is
//! proved: the contracts say what the `regex` crate documents.

use vstd::prelude::*;

verus! {

/// `regex::RegexSet`: a set of compiled patterns. Nothing inside it is
/// visible here.
#[verifier::external_type_specification]
#[verifier::external_body]
pub struct ExRegexSet(regex::RegexSet);

/// `regex::Error`: why a pattern was refused. Nothing inside it is
/// visible here.
#[verifier::external_type_specification]
#[verifier::external_body]
pub struct ExRegexError(regex::Error);

/// The patterns that a set was built from, in the order in which they were
/// given (what `regex::RegexSet::patterns` hands out).
pub uninterp spec fn regex_set_patterns(set: regex::RegexSet) -> Seq<Seq<char>>;

/// Whether a set was built with the options that `regex::RegexSet::new`
/// uses. A set from `regex::RegexSetBuilder` may hold the same patterns
/// and yet match otherwise (without regard to case, for one).
pub uninterp spec fn regex_set_plain(set: regex::RegexSet) -> bool;

/// Whether `regex::RegexSet::new` makes a set of the given patterns. It
/// refuses a pattern that is no valid expression, and a set that would
/// grow over its size limit.
pub uninterp spec fn regex_set_builds(patterns: Seq<Seq<char>>) -> bool;

/// What `regex::RegexSet::matches` finds for a plain set built from
/// `patterns`: the places, in ascending order, of the patterns that match
/// in `text`.
pub uninterp spec fn regex_set_matches(patterns: Seq<Seq<char>>, text: Seq<char>) -> Seq<usize>;

/// The patterns as plain character sequences.
pub open spec fn pattern_views(patterns: Seq<String>) -> Seq<Seq<char>> {
    Seq::new(patterns.len(), |i: int| patterns[i]@)
}

/// `regex::RegexSet::new`: builds a set from the given patterns, with the
/// options left as they are. Whether it succeeds depends on the patterns
/// alone. A set that comes back is plain and holds the patterns in the
/// order given.
#[verifier::external_body]
pub(crate) fn new_regex_set(patterns: &Vec<String>) -> (r: Result<regex::RegexSet, regex::Error>)
    ensures
        r is Ok <==> regex_set_builds(pattern_views(patterns@)),
        r matches Ok(set) ==> regex_set_plain(set) && regex_set_patterns(set) == pattern_views(
            patterns@,
        ),
{
    regex::RegexSet::new(patterns.iter())
}

/// `regex::RegexSet::matches`: the places of the patterns that match in
/// `text`, handed out in ascending order; each is a place in the set. Of
/// a plain set the result depends on the patterns and the text alone.
#[verifier::external_body]
pub(crate) fn matching_patterns(set: &regex::RegexSet, text: &str) -> (r: Vec<usize>)
    ensures
        regex_set_plain(*set) ==> r@ == regex_set_matches(regex_set_patterns(*set), text@),
        forall|i: int| 0 <= i < r@.len() ==> (#[trigger] r@[i]) < regex_set_patterns(*set).len(),
        forall|i: int, j: int| 0 <= i < j < r@.len() ==> (#[trigger] r@[i]) < (#[trigger] r@[j]),
{
    set.matches(text).into_iter().collect()
}

} // verus!

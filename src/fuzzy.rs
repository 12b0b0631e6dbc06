use fuzzy_matcher::FuzzyMatcher;
use vstd::prelude::*;

verus! {

/// What the default skim matcher (version 2) scores `pattern` against
/// `choice`; `None` when the pattern does not match.
pub uninterp spec fn skim_score(choice: Seq<char>, pattern: Seq<char>) -> Option<i64>;

/// Relies on fuzzy_matcher's SkimMatcherV2 with its default settings: its
/// `fuzzy_match` depends on the two strings alone.
#[verifier::external_body]
pub(crate) fn fuzzy_score(choice: &str, pattern: &str) -> (r: Option<i64>)
    ensures
        r == skim_score(choice@, pattern@),
{
    fuzzy_matcher::skim::SkimMatcherV2::default().fuzzy_match(choice, pattern)
}

} // verus!

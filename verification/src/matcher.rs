//! The matcher abstraction: a two-valued verdict, the polymorphic
//! matcher contract, and the negation combinator.

use vstd::prelude::*;

use crate::description::Description;

verus! {

/// Outcome of applying a matcher to a value.  There is no third state:
/// a matcher applied to a value of the "wrong shape" yields `NoMatch`,
/// never an error.
#[derive(Clone, Copy, Debug, PartialEq, Eq, Structural)]
pub enum MatcherResult {
    Match,
    NoMatch,
}

impl MatcherResult {
    /// True exactly on `Match`.
    pub open spec fn spec_is_match(self) -> bool {
        self == MatcherResult::Match
    }

    /// The verdict corresponding to a boolean decision.
    pub open spec fn spec_from_bool(b: bool) -> MatcherResult {
        if b {
            MatcherResult::Match
        } else {
            MatcherResult::NoMatch
        }
    }

    /// Executable form of [`MatcherResult::spec_from_bool`].
    pub fn from_bool(b: bool) -> (r: MatcherResult)
        ensures
            r == MatcherResult::spec_from_bool(b),
    {
        if b {
            MatcherResult::Match
        } else {
            MatcherResult::NoMatch
        }
    }

    /// Executable form of [`MatcherResult::spec_is_match`].
    pub fn is_match(self) -> (r: bool)
        ensures
            r == self.spec_is_match(),
    {
        match self {
            MatcherResult::Match => true,
            MatcherResult::NoMatch => false,
        }
    }
}

/// The matcher contract.  A matcher over values of type `T` decides a
/// match, explains a concrete outcome, and describes itself statically.
///
/// All three operations are pure: the specification functions pin each
/// result down as a function of the matcher and the argument alone, so
/// repeated calls on equal inputs yield equal results.
pub trait Matcher<T>: Sized {
    /// Whether this matcher accepts `actual`.
    spec fn spec_matches(&self, actual: T) -> bool;

    /// The lines of the static description of the condition that
    /// produces `Match` (for `expect_match`) or `NoMatch`.
    spec fn spec_describe(&self, expect_match: bool) -> Seq<Seq<char>>;

    /// The lines of the value-specific explanation for `actual`.
    spec fn spec_explain(&self, actual: T) -> Seq<Seq<char>>;

    /// Decide whether `actual` matches.
    fn matches(&self, actual: &T) -> (r: MatcherResult)
        ensures
            r == MatcherResult::spec_from_bool(self.spec_matches(*actual)),
    ;

    /// Explain why `actual` matched or did not match.
    fn explain_match(&self, actual: &T) -> (r: Description)
        ensures
            r@ == self.spec_explain(*actual),
    ;

    /// Describe the condition under which this matcher yields the given
    /// verdict, independent of any particular actual value.
    fn describe(&self, matcher_result: MatcherResult) -> (r: Description)
        ensures
            r@ == self.spec_describe(matcher_result.spec_is_match()),
    ;
}

/// Negation combinator: flips the verdict of `inner` and swaps which
/// static description is shown for which verdict.
pub struct NotMatcher<M> {
    pub inner: M,
}

impl<T, M: Matcher<T>> Matcher<T> for NotMatcher<M> {
    open spec fn spec_matches(&self, actual: T) -> bool {
        !self.inner.spec_matches(actual)
    }

    open spec fn spec_describe(&self, expect_match: bool) -> Seq<Seq<char>> {
        self.inner.spec_describe(!expect_match)
    }

    open spec fn spec_explain(&self, actual: T) -> Seq<Seq<char>> {
        self.inner.spec_explain(actual)
    }

    fn matches(&self, actual: &T) -> (r: MatcherResult) {
        match self.inner.matches(actual) {
            MatcherResult::Match => MatcherResult::NoMatch,
            MatcherResult::NoMatch => MatcherResult::Match,
        }
    }

    fn explain_match(&self, actual: &T) -> (r: Description) {
        self.inner.explain_match(actual)
    }

    fn describe(&self, matcher_result: MatcherResult) -> (r: Description) {
        match matcher_result {
            MatcherResult::Match => self.inner.describe(MatcherResult::NoMatch),
            MatcherResult::NoMatch => self.inner.describe(MatcherResult::Match),
        }
    }
}

/// Matches a value which `inner` does not match.
pub fn not<M>(inner: M) -> (r: NotMatcher<M>)
    ensures
        r == (NotMatcher { inner }),
{
    NotMatcher { inner }
}

/// Double negation is behaviorally identical to the original matcher:
/// `not(not(m))` yields the same verdict, the same static description
/// and the same explanation as `m`, on every input.
pub proof fn double_negation<T, M: Matcher<T>>(m: M, actual: T, expect_match: bool)
    ensures
        (NotMatcher { inner: NotMatcher { inner: m } }).spec_matches(actual) == m.spec_matches(
            actual,
        ),
        (NotMatcher { inner: NotMatcher { inner: m } }).spec_describe(expect_match)
            == m.spec_describe(expect_match),
        (NotMatcher { inner: NotMatcher { inner: m } }).spec_explain(actual) == m.spec_explain(
            actual,
        ),
{
}

} // verus!

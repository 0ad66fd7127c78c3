//! Dereferencing adapter: lifts a matcher over a value into a matcher
//! over an owner of that value, such as a single-owner box or a
//! shared-ownership pointer.  A pure forwarding wrapper with no
//! independent logic.

use std::rc::Rc;

use vstd::prelude::*;

use crate::description::Description;
use crate::matcher::Matcher;
use crate::matcher::MatcherResult;

verus! {

/// Matches a (smart) pointer pointing to a value matched by `expected`.
pub fn points_to<MatcherT>(expected: MatcherT) -> (r: PointsToMatcher<MatcherT>)
    ensures
        r == (PointsToMatcher { expected }),
{
    PointsToMatcher { expected }
}

/// Matches an owner whose dereferenced value is matched by `expected`.
/// All three operations delegate unchanged to the inner matcher.
pub struct PointsToMatcher<MatcherT> {
    pub expected: MatcherT,
}

impl<T, M: Matcher<T>> Matcher<Box<T>> for PointsToMatcher<M> {
    open spec fn spec_matches(&self, actual: Box<T>) -> bool {
        self.expected.spec_matches(*actual)
    }

    open spec fn spec_describe(&self, expect_match: bool) -> Seq<Seq<char>> {
        self.expected.spec_describe(expect_match)
    }

    open spec fn spec_explain(&self, actual: Box<T>) -> Seq<Seq<char>> {
        self.expected.spec_explain(*actual)
    }

    fn matches(&self, actual: &Box<T>) -> (r: MatcherResult) {
        self.expected.matches(&**actual)
    }

    fn explain_match(&self, actual: &Box<T>) -> (r: Description) {
        self.expected.explain_match(&**actual)
    }

    fn describe(&self, matcher_result: MatcherResult) -> (r: Description) {
        self.expected.describe(matcher_result)
    }
}

impl<T, M: Matcher<T>> Matcher<Rc<T>> for PointsToMatcher<M> {
    open spec fn spec_matches(&self, actual: Rc<T>) -> bool {
        self.expected.spec_matches(*actual)
    }

    open spec fn spec_describe(&self, expect_match: bool) -> Seq<Seq<char>> {
        self.expected.spec_describe(expect_match)
    }

    open spec fn spec_explain(&self, actual: Rc<T>) -> Seq<Seq<char>> {
        self.expected.spec_explain(*actual)
    }

    fn matches(&self, actual: &Rc<T>) -> (r: MatcherResult) {
        self.expected.matches(&**actual)
    }

    fn explain_match(&self, actual: &Rc<T>) -> (r: Description) {
        self.expected.explain_match(&**actual)
    }

    fn describe(&self, matcher_result: MatcherResult) -> (r: Description) {
        self.expected.describe(matcher_result)
    }
}

/// The dereferencing adapter changes nothing: for every inner matcher
/// `m` and owned value `v`, `points_to(m)` applied to an owner of `v`
/// gives the verdict, the description and the explanation that `m`
/// gives on `v`, for each supported owner.
pub proof fn points_to_law<T, M: Matcher<T>>(m: M, boxed: Box<T>, shared: Rc<T>, b: bool)
    ensures
        (PointsToMatcher { expected: m }).spec_matches(boxed) == m.spec_matches(*boxed),
        (PointsToMatcher { expected: m }).spec_matches(shared) == m.spec_matches(*shared),
        (PointsToMatcher { expected: m }).spec_explain(boxed) == m.spec_explain(*boxed),
        (PointsToMatcher { expected: m }).spec_explain(shared) == m.spec_explain(*shared),
        Matcher::<Box<T>>::spec_describe(&(PointsToMatcher { expected: m }), b)
            == m.spec_describe(b),
{
}

} // verus!

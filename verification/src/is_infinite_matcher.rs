//! Matcher for floating-point infinitude.

use vstd::prelude::*;

use crate::description::Description;
use crate::float_repr::Float32Bits;
use crate::float_repr::Float64Bits;
use crate::float_repr::f32_bits_infinite;
use crate::float_repr::f64_bits_infinite;
use crate::matcher::Matcher;
use crate::matcher::MatcherResult;

verus! {

/// Matches a floating point value which is Infinite.
pub fn is_infinite() -> (r: IsInfiniteMatcher)
    ensures
        r == IsInfiniteMatcher,
{
    IsInfiniteMatcher
}

/// Matches a floating point value, in either precision, which is
/// positive or negative infinity.
pub struct IsInfiniteMatcher;

impl Matcher<Float32Bits> for IsInfiniteMatcher {
    open spec fn spec_matches(&self, actual: Float32Bits) -> bool {
        f32_bits_infinite(actual.bits)
    }

    open spec fn spec_describe(&self, expect_match: bool) -> Seq<Seq<char>> {
        if expect_match {
            seq!["is Infinite"@]
        } else {
            seq!["isn't Infinite"@]
        }
    }

    open spec fn spec_explain(&self, actual: Float32Bits) -> Seq<Seq<char>> {
        if f32_bits_infinite(actual.bits) {
            seq!["which is Infinite"@]
        } else {
            seq!["which isn't Infinite"@]
        }
    }

    fn matches(&self, actual: &Float32Bits) -> (r: MatcherResult) {
        MatcherResult::from_bool(actual.is_infinite())
    }

    fn explain_match(&self, actual: &Float32Bits) -> (r: Description) {
        let r = if actual.is_infinite() {
            Description::new().text("which is Infinite")
        } else {
            Description::new().text("which isn't Infinite")
        };
        proof {
            assert(r@ =~= self.spec_explain(*actual));
        }
        r
    }

    fn describe(&self, matcher_result: MatcherResult) -> (r: Description) {
        let r = match matcher_result {
            MatcherResult::Match => Description::new().text("is Infinite"),
            MatcherResult::NoMatch => Description::new().text("isn't Infinite"),
        };
        proof {
            assert(r@ =~= Matcher::<Float32Bits>::spec_describe(
                self,
                matcher_result.spec_is_match(),
            ));
        }
        r
    }
}

impl Matcher<Float64Bits> for IsInfiniteMatcher {
    open spec fn spec_matches(&self, actual: Float64Bits) -> bool {
        f64_bits_infinite(actual.bits)
    }

    open spec fn spec_describe(&self, expect_match: bool) -> Seq<Seq<char>> {
        if expect_match {
            seq!["is Infinite"@]
        } else {
            seq!["isn't Infinite"@]
        }
    }

    open spec fn spec_explain(&self, actual: Float64Bits) -> Seq<Seq<char>> {
        if f64_bits_infinite(actual.bits) {
            seq!["which is Infinite"@]
        } else {
            seq!["which isn't Infinite"@]
        }
    }

    fn matches(&self, actual: &Float64Bits) -> (r: MatcherResult) {
        MatcherResult::from_bool(actual.is_infinite())
    }

    fn explain_match(&self, actual: &Float64Bits) -> (r: Description) {
        let r = if actual.is_infinite() {
            Description::new().text("which is Infinite")
        } else {
            Description::new().text("which isn't Infinite")
        };
        proof {
            assert(r@ =~= self.spec_explain(*actual));
        }
        r
    }

    fn describe(&self, matcher_result: MatcherResult) -> (r: Description) {
        let r = match matcher_result {
            MatcherResult::Match => Description::new().text("is Infinite"),
            MatcherResult::NoMatch => Description::new().text("isn't Infinite"),
        };
        proof {
            assert(r@ =~= Matcher::<Float64Bits>::spec_describe(
                self,
                matcher_result.spec_is_match(),
            ));
        }
        r
    }
}

} // verus!

//! The equality leaf matcher: matches a value equal to an expected one.

use vstd::prelude::*;
use vstd::string::StringExecFns;

use crate::decimal::dec_str;
use crate::description::Description;
use crate::matcher::Matcher;
use crate::matcher::MatcherResult;

verus! {

/// A value quoted the way a diagnostic shows a string: wrapped in
/// double quotes.
pub open spec fn quoted(s: Seq<char>) -> Seq<char> {
    seq!['"'] + s + seq!['"']
}

/// Matches a value equal to `expected`.
pub struct EqMatcher<ExpectedT> {
    pub expected: ExpectedT,
}

/// Matches a value equal to `expected`.
pub fn eq<ExpectedT>(expected: ExpectedT) -> (r: EqMatcher<ExpectedT>)
    ensures
        r == (EqMatcher { expected }),
{
    EqMatcher { expected }
}

impl Matcher<u64> for EqMatcher<u64> {
    open spec fn spec_matches(&self, actual: u64) -> bool {
        actual == self.expected
    }

    open spec fn spec_describe(&self, expect_match: bool) -> Seq<Seq<char>> {
        if expect_match {
            seq!["is equal to "@ + dec_str(self.expected as int)]
        } else {
            seq!["isn't equal to "@ + dec_str(self.expected as int)]
        }
    }

    open spec fn spec_explain(&self, actual: u64) -> Seq<Seq<char>> {
        if actual == self.expected {
            seq!["which is equal to "@ + dec_str(self.expected as int)]
        } else {
            seq!["which isn't equal to "@ + dec_str(self.expected as int)]
        }
    }

    fn matches(&self, actual: &u64) -> (r: MatcherResult) {
        MatcherResult::from_bool(*actual == self.expected)
    }

    fn explain_match(&self, actual: &u64) -> (r: Description) {
        let rendered = crate::decimal::render_u64(self.expected);
        let line = if *actual == self.expected {
            String::from_str("which is equal to ").concat(rendered.as_str())
        } else {
            String::from_str("which isn't equal to ").concat(rendered.as_str())
        };
        let r = Description::new().text(line.as_str());
        proof {
            assert(r@ =~= self.spec_explain(*actual));
        }
        r
    }

    fn describe(&self, matcher_result: MatcherResult) -> (r: Description) {
        let rendered = crate::decimal::render_u64(self.expected);
        let line = match matcher_result {
            MatcherResult::Match => String::from_str("is equal to ").concat(rendered.as_str()),
            MatcherResult::NoMatch => String::from_str("isn't equal to ").concat(rendered.as_str()),
        };
        let r = Description::new().text(line.as_str());
        proof {
            assert(r@ =~= self.spec_describe(matcher_result.spec_is_match()));
        }
        r
    }
}

impl<'a> Matcher<String> for EqMatcher<&'a str> {
    open spec fn spec_matches(&self, actual: String) -> bool {
        actual@ == self.expected@
    }

    open spec fn spec_describe(&self, expect_match: bool) -> Seq<Seq<char>> {
        if expect_match {
            seq!["is equal to "@ + quoted(self.expected@)]
        } else {
            seq!["isn't equal to "@ + quoted(self.expected@)]
        }
    }

    open spec fn spec_explain(&self, actual: String) -> Seq<Seq<char>> {
        if actual@ == self.expected@ {
            seq!["which is equal to "@ + quoted(self.expected@)]
        } else {
            seq!["which isn't equal to "@ + quoted(self.expected@)]
        }
    }

    fn matches(&self, actual: &String) -> (r: MatcherResult) {
        let expected = String::from_str(self.expected);
        MatcherResult::from_bool(*actual == expected)
    }

    fn explain_match(&self, actual: &String) -> (r: Description) {
        proof {
            reveal_strlit("\"");
            assert("\""@ =~= seq!['"']);
        }
        let quoted_expected = String::from_str("\"").concat(self.expected).concat("\"");
        let expected = String::from_str(self.expected);
        let line = if *actual == expected {
            String::from_str("which is equal to ").concat(quoted_expected.as_str())
        } else {
            String::from_str("which isn't equal to ").concat(quoted_expected.as_str())
        };
        let r = Description::new().text(line.as_str());
        proof {
            assert(r@ =~= self.spec_explain(*actual));
        }
        r
    }

    fn describe(&self, matcher_result: MatcherResult) -> (r: Description) {
        proof {
            reveal_strlit("\"");
            assert("\""@ =~= seq!['"']);
        }
        let quoted_expected = String::from_str("\"").concat(self.expected).concat("\"");
        let line = match matcher_result {
            MatcherResult::Match => String::from_str("is equal to ").concat(
                quoted_expected.as_str(),
            ),
            MatcherResult::NoMatch => String::from_str("isn't equal to ").concat(
                quoted_expected.as_str(),
            ),
        };
        let r = Description::new().text(line.as_str());
        proof {
            assert(r@ =~= self.spec_describe(matcher_result.spec_is_match()));
        }
        r
    }
}

} // verus!

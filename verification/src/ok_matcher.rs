//! Success/failure adapter: applies an inner matcher to the value held
//! by the success variant of a two-variant container.

use vstd::prelude::*;
use vstd::string::StringExecFns;

use crate::description::Description;
use crate::description::indented;
use crate::description::join_lines;
use crate::matcher::Matcher;
use crate::matcher::MatcherResult;

verus! {

/// Matches a `Result` containing `Ok` with a value matched by `inner`.
pub fn ok<InnerMatcherT>(inner: InnerMatcherT) -> (r: OkMatcher<InnerMatcherT>)
    ensures
        r == (OkMatcher { inner }),
{
    OkMatcher { inner }
}

/// Matches a `Result` containing `Ok` with a value matched by the
/// inner matcher.  The failure variant always yields `NoMatch`, with a
/// fixed explanation, whatever the inner matcher.
pub struct OkMatcher<InnerMatcherT> {
    pub inner: InnerMatcherT,
}

impl<T, E, M: Matcher<T>> Matcher<Result<T, E>> for OkMatcher<M> {
    open spec fn spec_matches(&self, actual: Result<T, E>) -> bool {
        match actual {
            Ok(v) => self.inner.spec_matches(v),
            Err(_) => false,
        }
    }

    open spec fn spec_describe(&self, expect_match: bool) -> Seq<Seq<char>> {
        if expect_match {
            seq![
                "is a success containing a value, which "@ + join_lines(
                    self.inner.spec_describe(true),
                ),
            ]
        } else {
            seq![
                "is an error or a success containing a value, which "@ + join_lines(
                    self.inner.spec_describe(false),
                ),
            ]
        }
    }

    open spec fn spec_explain(&self, actual: Result<T, E>) -> Seq<Seq<char>> {
        match actual {
            Ok(v) => seq!["which is a success"@] + self.inner.spec_explain(v).map_values(
                |l: Seq<char>| indented(l),
            ),
            Err(_) => seq!["which is an error"@],
        }
    }

    fn matches(&self, actual: &Result<T, E>) -> (r: MatcherResult) {
        match actual {
            Ok(v) => self.inner.matches(v),
            Err(_) => MatcherResult::NoMatch,
        }
    }

    fn explain_match(&self, actual: &Result<T, E>) -> (r: Description) {
        match actual {
            Ok(v) => {
                let r = Description::new().text("which is a success").nested(
                    self.inner.explain_match(v),
                );
                proof {
                    assert(r@ =~= self.spec_explain(*actual));
                }
                r
            },
            Err(_) => {
                let r = Description::new().text("which is an error");
                proof {
                    assert(r@ =~= self.spec_explain(*actual));
                }
                r
            },
        }
    }

    fn describe(&self, matcher_result: MatcherResult) -> (r: Description) {
        let line = match matcher_result {
            MatcherResult::Match => {
                let inner_rendered = self.inner.describe(MatcherResult::Match).render();
                String::from_str("is a success containing a value, which ").concat(
                    inner_rendered.as_str(),
                )
            },
            MatcherResult::NoMatch => {
                let inner_rendered = self.inner.describe(MatcherResult::NoMatch).render();
                String::from_str("is an error or a success containing a value, which ").concat(
                    inner_rendered.as_str(),
                )
            },
        };
        let r = Description::new().text(line.as_str());
        proof {
            assert(r@ =~= Matcher::<Result<T, E>>::spec_describe(
                self,
                matcher_result.spec_is_match(),
            ));
        }
        r
    }
}

/// The success/failure adapter delegates to the inner matcher on the
/// success variant and always rejects the failure variant: for every
/// inner matcher `m`, every success value `v` and every error `e`,
/// `ok(m)` matches `Ok(v)` exactly when `m` matches `v`, and never
/// matches `Err(e)`.
pub proof fn ok_adapter_law<T, E, M: Matcher<T>>(m: M, v: T, e: E)
    ensures
        (OkMatcher { inner: m }).spec_matches(Ok::<T, E>(v)) == m.spec_matches(v),
        !(OkMatcher { inner: m }).spec_matches(Err::<T, E>(e)),
{
}

} // verus!

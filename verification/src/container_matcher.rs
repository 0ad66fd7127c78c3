//! Matching the elements of a collection, in any order, against a
//! list of per-element matchers, under a chosen policy.

use vstd::prelude::*;
use vstd::string::StringExecFns;

use crate::decimal::dec_str;
use crate::decimal::render_u64;
use crate::description::Description;
use crate::description::indented;
use crate::description::join_lines;
use crate::eq_matcher::EqMatcher;
use crate::eq_matcher::eq;
use crate::match_matrix::MatchMatrix;
use crate::match_matrix::Policy;
use crate::match_matrix::no_cell_true;
use crate::match_matrix::assignment_ok;
use crate::match_matrix::count_matched;
use crate::match_matrix::spec_assigned;
use crate::match_matrix::spec_unmatched;
use crate::match_matrix::spec_unsatisfied;
use crate::matcher::Matcher;
use crate::matcher::MatcherResult;

verus! {

/// The feasibility grid induced by a matcher list over an element
/// sequence: cell (i, j) says whether matcher j matches element i.
pub open spec fn spec_grid<M: Matcher<u64>>(matchers: Seq<M>, elements: Seq<u64>) -> Seq<
    Seq<bool>,
> {
    Seq::new(
        elements.len(),
        |i: int| Seq::new(matchers.len(), |j: int| matchers[j].spec_matches(elements[i])),
    )
}

/// An assignment that no single free pair could extend: every
/// unsatisfied matcher's feasible elements are all taken.
pub open spec fn saturated(owner: Seq<Option<usize>>, g: Seq<Seq<bool>>, m: int) -> bool {
    forall|j: int|
        0 <= j < m && !spec_assigned(owner, j) ==> forall|i: int|
            0 <= i < g.len() && g[i][j] ==> (#[trigger] owner[i]) is Some
}

/// The values joined by a comma and a space.
pub open spec fn comma_join(vals: Seq<u64>) -> Seq<char>
    decreases vals.len(),
{
    if vals.len() == 0 {
        Seq::empty()
    } else if vals.len() == 1 {
        dec_str(vals[0] as int)
    } else {
        dec_str(vals[0] as int) + ", "@ + comma_join(vals.drop_first())
    }
}

/// The lines explaining a failed container match, derived from the
/// final assignment: when no element satisfies any matcher the
/// explanation collapses to the unexpected-element phrase; otherwise
/// the unsatisfied expectations are listed, nested, with the
/// unmatched elements after them.
pub open spec fn failure_lines(
    all_infeasible: bool,
    unmatched: Seq<u64>,
    unsat: Seq<Seq<char>>,
) -> Seq<Seq<char>> {
    if all_infeasible && unmatched.len() == 1 {
        seq!["which contains the unexpected element "@ + dec_str(unmatched[0] as int)]
    } else if all_infeasible && unmatched.len() > 1 {
        seq!["which contains the unexpected elements "@ + comma_join(unmatched)]
    } else {
        (seq!["which has unsatisfied expectations"@] + unsat.map_values(
            |l: Seq<char>| indented(l),
        )) + if unmatched.len() > 0 {
            seq!["and the unmatched elements "@ + comma_join(unmatched)]
        } else {
            Seq::<Seq<char>>::empty()
        }
    }
}

/// The whole explanation for one actual sequence under one assignment.
pub open spec fn spec_container_explain<M: Matcher<u64>>(
    matchers: Seq<M>,
    policy: Policy,
    elements: Seq<u64>,
    owner: Seq<Option<usize>>,
) -> Seq<Seq<char>> {
    if MatchMatrix::spec_verdict(elements.len(), matchers.len(), count_matched(owner), policy) {
        seq!["whose elements all match"@]
    } else {
        failure_lines(
            no_cell_true(spec_grid(matchers, elements)),
            spec_unmatched(elements, owner),
            spec_unsatisfied(owner, matchers.len() as int, 0).map_values(
                |j: usize| join_lines(matchers[j as int].spec_describe(true)),
            ),
        )
    }
}

/// Matches a collection whose elements, taken in any order, satisfy
/// the given matchers under the given policy.
pub struct UnorderedElementsMatcher<M> {
    pub matchers: Vec<M>,
    pub policy: Policy,
}

/// Matches a collection whose elements satisfy the given matchers in
/// some order, under the given policy.
pub fn unordered_elements_are<M: Matcher<u64>>(matchers: Vec<M>, policy: Policy) -> (r:
    UnorderedElementsMatcher<M>)
    ensures
        r == (UnorderedElementsMatcher { matchers, policy }),
{
    UnorderedElementsMatcher { matchers, policy }
}

/// Matches a collection holding exactly the given elements, in any
/// order.
pub fn container_eq(expected: &Vec<u64>) -> (r: UnorderedElementsMatcher<EqMatcher<u64>>)
    ensures
        r.policy == Policy::Exact,
        r.matchers@.len() == expected@.len(),
        forall|k: int|
            0 <= k < expected@.len() ==> (#[trigger] r.matchers@[k]) == (EqMatcher {
                expected: expected@[k],
            }),
{
    let mut matchers: Vec<EqMatcher<u64>> = Vec::new();
    let mut k: usize = 0;
    while k < expected.len()
        invariant
            k <= expected@.len(),
            matchers@.len() == k,
            forall|kk: int|
                0 <= kk < k ==> (#[trigger] matchers@[kk]) == (EqMatcher {
                    expected: expected@[kk],
                }),
        decreases expected@.len() - k,
    {
        matchers.push(eq(expected[k]));
        k = k + 1;
    }
    UnorderedElementsMatcher { matchers, policy: Policy::Exact }
}

impl<M: Matcher<u64>> UnorderedElementsMatcher<M> {
    /// Decide whether the elements satisfy the matchers under the
    /// policy, by the size of a matching grown through repeated
    /// augmenting-path search.  The result is backed by a valid
    /// assignment that no free pair could extend.
    pub fn matches(&self, actual: &Vec<u64>) -> (r: MatcherResult)
        ensures
            exists|owner: Seq<Option<usize>>|
                {
                    &&& assignment_ok(
                        owner,
                        spec_grid(self.matchers@, actual@),
                        self.matchers@.len() as int,
                    )
                    &&& saturated(
                        owner,
                        spec_grid(self.matchers@, actual@),
                        self.matchers@.len() as int,
                    )
                    &&& r == MatcherResult::spec_from_bool(
                        MatchMatrix::spec_verdict(
                            actual@.len(),
                            self.matchers@.len(),
                            count_matched(owner),
                            self.policy,
                        ),
                    )
                },
    {
        let matrix = MatchMatrix::new(actual, &self.matchers);
        proof {
            assert(matrix.spec_cells() =~~= spec_grid(self.matchers@, actual@));
        }
        let owner = matrix.max_matching();
        let size = MatchMatrix::matched_count(&owner);
        let verdict = MatchMatrix::verdict(actual.len(), self.matchers.len(), size, self.policy);
        let r = MatcherResult::from_bool(verdict);
        proof {
            let w = owner@;
            let g = spec_grid(self.matchers@, actual@);
            let m = self.matchers@.len() as int;
            assert(assignment_ok(w, g, m) && saturated(w, g, m) && r
                == MatcherResult::spec_from_bool(
                MatchMatrix::spec_verdict(actual@.len(), self.matchers@.len(), count_matched(w), self.policy),
            ));
        }
        r
    }

    /// Explain an actual sequence: on a match, a fixed line; on a
    /// failure, the lines read off the final assignment.
    pub fn explain_match(&self, actual: &Vec<u64>) -> (r: Description)
        ensures
            exists|owner: Seq<Option<usize>>|
                {
                    &&& assignment_ok(
                        owner,
                        spec_grid(self.matchers@, actual@),
                        self.matchers@.len() as int,
                    )
                    &&& saturated(
                        owner,
                        spec_grid(self.matchers@, actual@),
                        self.matchers@.len() as int,
                    )
                    &&& r@ == spec_container_explain(self.matchers@, self.policy, actual@, owner)
                },
    {
        let ghost g = spec_grid(self.matchers@, actual@);
        let ghost m_int = self.matchers@.len() as int;
        let matrix = MatchMatrix::new(actual, &self.matchers);
        proof {
            assert(matrix.spec_cells() =~~= g);
        }
        let owner = matrix.max_matching();
        let ghost w = owner@;
        let size = MatchMatrix::matched_count(&owner);
        let verdict = MatchMatrix::verdict(actual.len(), self.matchers.len(), size, self.policy);
        let r: Description;
        if verdict {
            r = Description::new().text("whose elements all match");
            proof {
                assert(r@ =~= spec_container_explain(self.matchers@, self.policy, actual@, w));
            }
        } else {
            let unmatched = crate::match_matrix::unmatched_elements(actual, &owner);
            let unsat = crate::match_matrix::unsatisfied_matchers(&owner, self.matchers.len());
            let all_inf = matrix.all_infeasible();
            if all_inf && unmatched.len() == 1 {
                let line = String::from_str("which contains the unexpected element ").concat(
                    render_u64(unmatched[0]).as_str(),
                );
                r = Description::new().text(line.as_str());
                proof {
                    assert(r@ =~= spec_container_explain(
                        self.matchers@,
                        self.policy,
                        actual@,
                        w,
                    ));
                }
            } else if all_inf && unmatched.len() > 1 {
                let line = String::from_str("which contains the unexpected elements ").concat(
                    comma_join_exec(&unmatched, 0).as_str(),
                );
                r = Description::new().text(line.as_str());
                proof {
                    assert(unmatched@.skip(0) =~= unmatched@);
                    assert(r@ =~= spec_container_explain(
                        self.matchers@,
                        self.policy,
                        actual@,
                        w,
                    ));
                }
            } else {
                proof {
                    lemma_unsatisfied_range(w, m_int, 0);
                }
                let mut inner = Description::new();
                let mut k: usize = 0;
                proof {
                    assert(inner@ =~= unsat@.subrange(0, 0).map_values(
                        |j: usize| join_lines(self.matchers@[j as int].spec_describe(true)),
                    ));
                }
                while k < unsat.len()
                    invariant
                        k <= unsat@.len(),
                        unsat@ == spec_unsatisfied(w, m_int, 0),
                        m_int == self.matchers@.len() as int,
                        forall|kk: int| 0 <= kk < unsat@.len() ==> (#[trigger] unsat@[kk]) < m_int,
                        inner@ == unsat@.subrange(0, k as int).map_values(
                            |j: usize| join_lines(self.matchers@[j as int].spec_describe(true)),
                        ),
                    decreases unsat@.len() - k,
                {
                    let jdx = unsat[k];
                    let rendered = self.matchers[jdx].describe(MatcherResult::Match).render();
                    inner = inner.text(rendered.as_str());
                    proof {
                        assert(unsat@.subrange(0, k + 1 as int) =~= unsat@.subrange(
                            0,
                            k as int,
                        ).push(unsat@[k as int]));
                        assert(unsat@.subrange(0, k + 1 as int).map_values(
                            |j: usize| join_lines(self.matchers@[j as int].spec_describe(true)),
                        ) =~= unsat@.subrange(0, k as int).map_values(
                            |j: usize| join_lines(self.matchers@[j as int].spec_describe(true)),
                        ).push(join_lines(self.matchers@[unsat@[k as int] as int].spec_describe(true))));
                    }
                    k = k + 1;
                }
                proof {
                    assert(unsat@.subrange(0, unsat@.len() as int) =~= unsat@);
                }
                let mut d = Description::new().text("which has unsatisfied expectations").nested(
                    inner,
                );
                if unmatched.len() > 0 {
                    let line = String::from_str("and the unmatched elements ").concat(
                        comma_join_exec(&unmatched, 0).as_str(),
                    );
                    d = d.text(line.as_str());
                    proof {
                        assert(unmatched@.skip(0) =~= unmatched@);
                    }
                }
                r = d;
                proof {
                    assert(r@ =~= spec_container_explain(
                        self.matchers@,
                        self.policy,
                        actual@,
                        w,
                    ));
                }
            }
        }
        proof {
            assert(assignment_ok(w, g, m_int) && saturated(w, g, m_int) && r@
                == spec_container_explain(self.matchers@, self.policy, actual@, w));
        }
        r
    }

    /// Describe the condition for each verdict, independent of any
    /// actual value.
    pub fn describe(&self, matcher_result: MatcherResult) -> (r: Description)
        ensures
            matcher_result is Match ==> r@ == seq![
                "contains elements satisfying all expectations"@,
            ],
            matcher_result is NoMatch ==> r@ == seq![
                "doesn't contain elements satisfying all expectations"@,
            ],
    {
        let r = match matcher_result {
            MatcherResult::Match => Description::new().text(
                "contains elements satisfying all expectations",
            ),
            MatcherResult::NoMatch => Description::new().text(
                "doesn't contain elements satisfying all expectations",
            ),
        };
        proof {
            if matcher_result is Match {
                assert(r@ =~= seq!["contains elements satisfying all expectations"@]);
            } else {
                assert(r@ =~= seq!["doesn't contain elements satisfying all expectations"@]);
            }
        }
        r
    }
}

/// Every index that the unsatisfied list reports lies below `m`.
proof fn lemma_unsatisfied_range(owner: Seq<Option<usize>>, m: int, j: int)
    ensures
        forall|k: int|
            0 <= k < spec_unsatisfied(owner, m, j).len() ==> (#[trigger] spec_unsatisfied(
                owner,
                m,
                j,
            )[k]) < m,
    decreases m - j,
{
    if j >= m || j < 0 {
    } else {
        lemma_unsatisfied_range(owner, m, j + 1);
        if !spec_assigned(owner, j) {
            assert(forall|k: int|
                1 <= k < spec_unsatisfied(owner, m, j).len() ==> spec_unsatisfied(owner, m, j)[k]
                    == spec_unsatisfied(owner, m, j + 1)[k - 1]);
        }
    }
}

/// Render the values from `k` on, joined by a comma and a space.
fn comma_join_exec(vals: &Vec<u64>, k: usize) -> (r: String)
    requires
        k <= vals@.len(),
    ensures
        r@ == comma_join(vals@.skip(k as int)),
    decreases vals@.len() - k,
{
    proof {
        assert(vals@.skip(k as int).len() == vals@.len() - k);
        if k < vals@.len() {
            assert(vals@.skip(k as int)[0] == vals@[k as int]);
            assert(vals@.skip(k as int).drop_first() =~= vals@.skip(k + 1));
        }
    }
    if k == vals.len() {
        String::new()
    } else if k + 1 == vals.len() {
        render_u64(vals[k])
    } else {
        render_u64(vals[k]).concat(", ").concat(comma_join_exec(vals, k + 1).as_str())
    }
}

} // verus!

//! Matching an unordered collection against a list of per-element
//! matchers: a bipartite-matching problem.
//!
//! The matrix records which actual element satisfies which matcher.  A
//! matching is grown by repeated augmenting-path search; the verdict
//! and the failure report are both read off the final assignment, so
//! the explanation stays consistent with the verdict.

use vstd::prelude::*;
use vstd::pervasive::VecAdditionalExecFns;

use crate::matcher::Matcher;

verus! {

/// The matching discipline demanded of the collection.
#[derive(Clone, Copy, Debug, PartialEq, Eq, Structural)]
pub enum Policy {
    /// Every element and every matcher must be covered, pairwise.
    Exact,
    /// Every matcher must be covered; extra elements are permitted.
    CoveringSubset,
    /// Every element must be covered; extra matchers are permitted.
    CoveringSuperset,
}

/// Every row of the grid has exactly `m` cells.
pub open spec fn grid_wf(g: Seq<Seq<bool>>, m: int) -> bool {
    forall|i: int| 0 <= i < g.len() ==> (#[trigger] g[i]).len() == m
}

/// A partial injective assignment from element indices to matcher
/// indices, consistent with the grid: every mapped pair is a true
/// cell, and no matcher is used twice.
pub open spec fn assignment_ok(owner: Seq<Option<usize>>, g: Seq<Seq<bool>>, m: int) -> bool {
    &&& owner.len() == g.len()
    &&& forall|i: int|
        0 <= i < owner.len() && owner[i] is Some ==> (#[trigger] owner[i])->0 < m
            && g[i][owner[i]->0 as int]
    &&& forall|i1: int, i2: int|
        0 <= i1 < owner.len() && 0 <= i2 < owner.len() && i1 != i2 && owner[i1] is Some
            && #[trigger] owner[i1] == #[trigger] owner[i2] ==> false
}

/// No element satisfies any matcher at all.
pub open spec fn no_cell_true(g: Seq<Seq<bool>>) -> bool {
    forall|i: int, j: int| 0 <= i < g.len() && 0 <= j < g[i].len() ==> !(#[trigger] g[i][j])
}

/// Whether matcher `j` is used by the assignment.
pub open spec fn spec_assigned(owner: Seq<Option<usize>>, j: int) -> bool {
    exists|i: int| 0 <= i < owner.len() && #[trigger] owner[i] == Some(j as usize)
}

/// How many elements the assignment covers.
pub open spec fn count_matched(owner: Seq<Option<usize>>) -> nat
    decreases owner.len(),
{
    if owner.len() == 0 {
        0
    } else {
        (if owner[0] is Some {
            1nat
        } else {
            0nat
        }) + count_matched(owner.drop_first())
    }
}

/// How many elements the search has visited.
pub open spec fn count_visited(visited: Seq<bool>) -> nat
    decreases visited.len(),
{
    if visited.len() == 0 {
        0
    } else {
        (if visited[0] {
            1nat
        } else {
            0nat
        }) + count_visited(visited.drop_first())
    }
}

proof fn lemma_count_visited_le(v: Seq<bool>)
    ensures
        count_visited(v) <= v.len(),
    decreases v.len(),
{
    if v.len() > 0 {
        lemma_count_visited_le(v.drop_first());
    }
}

proof fn lemma_count_visited_update(v: Seq<bool>, i: int)
    requires
        0 <= i < v.len(),
        !v[i],
    ensures
        count_visited(v.update(i, true)) == count_visited(v) + 1,
    decreases v.len(),
{
    if i == 0 {
        assert(v.update(0, true).drop_first() =~= v.drop_first());
    } else {
        assert(v.update(i, true).drop_first() =~= v.drop_first().update(i - 1, true));
        lemma_count_visited_update(v.drop_first(), i - 1);
    }
}

proof fn lemma_count_matched_update(s: Seq<Option<usize>>, i: int, v: Option<usize>)
    requires
        0 <= i < s.len(),
    ensures
        count_matched(s.update(i, v)) == count_matched(s) + (if v is Some {
            1int
        } else {
            0int
        }) - (if s[i] is Some {
            1int
        } else {
            0int
        }),
    decreases s.len(),
{
    if i == 0 {
        assert(s.update(0, v).drop_first() =~= s.drop_first());
    } else {
        assert(s.update(i, v).drop_first() =~= s.drop_first().update(i - 1, v));
        lemma_count_matched_update(s.drop_first(), i - 1, v);
    }
}

/// One augmenting-path search: try to extend the assignment so that
/// matcher `j` is covered, reassigning already-covered matchers along
/// an alternating path of elements not yet visited.  On failure the
/// assignment is left untouched; already-visited elements keep their
/// assignment either way.
fn try_assign(
    grid: &Vec<Vec<bool>>,
    m: usize,
    j: usize,
    owner: &mut Vec<Option<usize>>,
    visited: &mut Vec<bool>,
) -> (r: bool)
    requires
        grid_wf(grid@.map_values(|row: Vec<bool>| row@), m as int),
        j < m,
        assignment_ok(old(owner)@, grid@.map_values(|row: Vec<bool>| row@), m as int),
        !spec_assigned(old(owner)@, j as int),
        old(visited)@.len() == grid@.len(),
    ensures
        final(visited)@.len() == grid@.len(),
        forall|k: int| 0 <= k < grid@.len() && old(visited)@[k] ==> final(visited)@[k],
        count_visited(final(visited)@) >= count_visited(old(visited)@),
        forall|k: int|
            0 <= k < grid@.len() && old(visited)@[k] ==> final(owner)@[k] == old(owner)@[k],
        !r ==> final(owner)@ == old(owner)@,
        !r ==> forall|k: int|
            0 <= k < grid@.len() && final(visited)@[k] && !old(visited)@[k] ==> old(
                owner,
            )@[k] is Some,
        !r ==> forall|i: int|
            0 <= i < grid@.len() && grid@.map_values(|row: Vec<bool>| row@)[i][j as int]
                ==> final(visited)@[i],
        r ==> assignment_ok(final(owner)@, grid@.map_values(|row: Vec<bool>| row@), m as int),
        r ==> spec_assigned(final(owner)@, j as int),
        r ==> forall|jj: int|
            0 <= jj < m && jj != j ==> spec_assigned(final(owner)@, jj) == spec_assigned(
                old(owner)@,
                jj,
            ),
        r ==> count_matched(final(owner)@) == count_matched(old(owner)@) + 1,
        r ==> forall|k: int|
            0 <= k < old(owner)@.len() && old(owner)@[k] is Some ==> final(owner)@[k] is Some,
    decreases grid@.len() - count_visited(old(visited)@),
{
    let ghost g = grid@.map_values(|row: Vec<bool>| row@);
    let ghost v0 = visited@;
    let ghost owner0 = owner@;
    let n = grid.len();
    proof {
        lemma_count_visited_le(visited@);
    }
    let mut i: usize = 0;
    while i < n
        invariant
            i <= n,
            n == grid@.len(),
            g == grid@.map_values(|row: Vec<bool>| row@),
            grid_wf(g, m as int),
            j < m,
            owner@ == owner0,
            owner0 == old(owner)@,
            v0 == old(visited)@,
            assignment_ok(owner@, g, m as int),
            !spec_assigned(owner@, j as int),
            visited@.len() == n,
            v0.len() == n,
            count_visited(visited@) >= count_visited(v0),
            forall|k: int| 0 <= k < n && v0[k] ==> visited@[k],
            forall|k: int| 0 <= k < n && visited@[k] && !v0[k] ==> owner@[k] is Some,
            forall|k: int| 0 <= k < i && g[k][j as int] ==> visited@[k],
        decreases n - i,
    {
        proof {
            assert(g[i as int] == grid@[i as int]@);
            assert(grid@[i as int]@.len() == m);
        }
        if grid[i][j] && !visited[i] {
            proof {
                lemma_count_visited_update(visited@, i as int);
                assert(!v0[i as int]);
                assert(g[i as int] == grid@[i as int]@);
            }
            visited.set(i, true);
            match owner[i] {
                None => {
                    proof {
                        lemma_count_matched_update(owner0, i as int, Some(j));
                    }
                    owner.set(i, Some(j));
                    proof {
                        let d = owner@;
                        assert(d == owner0.update(i as int, Some(j)));
                        assert(d[i as int] == Some(j));
                        assert(spec_assigned(d, j as int));
                        assert forall|jj: int| 0 <= jj < m && jj != j implies spec_assigned(
                            d,
                            jj,
                        ) == spec_assigned(owner0, jj) by {
                            if spec_assigned(owner0, jj) {
                                let w = choose|k: int|
                                    0 <= k < owner0.len() && #[trigger] owner0[k] == Some(
                                        jj as usize,
                                    );
                                assert(w != i);
                                assert(d[w] == Some(jj as usize));
                            }
                            if spec_assigned(d, jj) {
                                let w = choose|k: int|
                                    0 <= k < d.len() && #[trigger] d[k] == Some(jj as usize);
                                assert(w != i);
                                assert(owner0[w] == Some(jj as usize));
                            }
                        }
                    }
                    return true;
                },
                Some(jprime) => {
                    proof {
                        assert(owner0[i as int] == Some(jprime));
                        assert(jprime != j);
                        assert(jprime < m);
                        let b = owner0.update(i as int, None);
                        assert(!spec_assigned(b, jprime as int)) by {
                            if spec_assigned(b, jprime as int) {
                                let w = choose|k: int|
                                    0 <= k < b.len() && #[trigger] b[k] == Some(jprime);
                                assert(w != i);
                                assert(owner0[w] == Some(jprime));
                                assert(owner0[i as int] == Some(jprime));
                            }
                        }
                        lemma_count_matched_update(owner0, i as int, None);
                    }
                    owner.set(i, None);
                    let ghost b = owner@;
                    let ghost vis_rec = visited@;
                    proof {
                        lemma_count_visited_le(visited@);
                        assert(count_visited(visited@) > count_visited(v0));
                    }
                    if try_assign(grid, m, jprime, owner, visited) {
                        let ghost c = owner@;
                        proof {
                            assert(vis_rec[i as int]);
                            assert(c[i as int] == b[i as int]);
                            assert(c[i as int] is None);
                            assert(!spec_assigned(c, j as int)) by {
                                assert(!spec_assigned(b, j as int)) by {
                                    if spec_assigned(b, j as int) {
                                        let w = choose|k: int|
                                            0 <= k < b.len() && #[trigger] b[k] == Some(j);
                                        assert(w != i);
                                        assert(owner0[w] == Some(j));
                                    }
                                }
                            }
                            lemma_count_matched_update(c, i as int, Some(j));
                        }
                        owner.set(i, Some(j));
                        proof {
                            let d = owner@;
                            assert(d == c.update(i as int, Some(j)));
                            assert(d[i as int] == Some(j));
                            assert(spec_assigned(d, j as int));
                            assert(assignment_ok(d, g, m as int)) by {
                                assert forall|i1: int, i2: int|
                                    0 <= i1 < d.len() && 0 <= i2 < d.len() && i1 != i2
                                        && d[i1] is Some && #[trigger] d[i1] == #[trigger] d[i2]
                                    implies false by {
                                    if i1 == i as int {
                                        assert(c[i2] == Some(j));
                                        assert(spec_assigned(c, j as int));
                                    } else if i2 == i as int {
                                        assert(c[i1] == Some(j));
                                        assert(spec_assigned(c, j as int));
                                    } else {
                                        assert(c[i1] == d[i1]);
                                        assert(c[i2] == d[i2]);
                                    }
                                }
                            }
                            assert forall|jj: int| 0 <= jj < m && jj != j implies spec_assigned(
                                d,
                                jj,
                            ) == spec_assigned(owner0, jj) by {
                                if jj == jprime {
                                    assert(spec_assigned(owner0, jj)) by {
                                        assert(owner0[i as int] == Some(jprime));
                                    }
                                    assert(spec_assigned(c, jj));
                                    let w = choose|k: int|
                                        0 <= k < c.len() && #[trigger] c[k] == Some(jprime);
                                    assert(w != i);
                                    assert(d[w] == Some(jprime));
                                    assert(spec_assigned(d, jj));
                                } else {
                                    assert(spec_assigned(c, jj) == spec_assigned(b, jj));
                                    assert(spec_assigned(b, jj) == spec_assigned(owner0, jj)) by {
                                        if spec_assigned(owner0, jj) {
                                            let w = choose|k: int|
                                                0 <= k < owner0.len() && #[trigger] owner0[k]
                                                    == Some(jj as usize);
                                            assert(w != i);
                                            assert(b[w] == Some(jj as usize));
                                        }
                                        if spec_assigned(b, jj) {
                                            let w = choose|k: int|
                                                0 <= k < b.len() && #[trigger] b[k] == Some(
                                                    jj as usize,
                                                );
                                            assert(w != i);
                                            assert(owner0[w] == Some(jj as usize));
                                        }
                                    }
                                    assert(spec_assigned(d, jj) == spec_assigned(c, jj)) by {
                                        if spec_assigned(c, jj) {
                                            let w = choose|k: int|
                                                0 <= k < c.len() && #[trigger] c[k] == Some(
                                                    jj as usize,
                                                );
                                            assert(w != i);
                                            assert(d[w] == Some(jj as usize));
                                        }
                                        if spec_assigned(d, jj) {
                                            let w = choose|k: int|
                                                0 <= k < d.len() && #[trigger] d[k] == Some(
                                                    jj as usize,
                                                );
                                            assert(w != i);
                                            assert(c[w] == Some(jj as usize));
                                        }
                                    }
                                }
                            }
                            assert forall|k: int|
                                0 <= k < owner0.len() && owner0[k] is Some implies d[k] is Some by {
                                if k != i as int {
                                    assert(b[k] == owner0[k]);
                                    assert(c[k] is Some);
                                }
                            }
                            assert forall|k: int|
                                0 <= k < grid@.len() && v0[k] implies d[k] == owner0[k] by {
                                assert(k != i as int);
                                assert(vis_rec[k]);
                                assert(c[k] == b[k]);
                            }
                        }
                        return true;
                    } else {
                        proof {
                            assert(owner@ == b);
                        }
                        owner.set(i, Some(jprime));
                        proof {
                            assert(owner@ =~= owner0);
                        }
                    }
                },
            }
        }
        i = i + 1;
    }
    false
}

/// Counting is indifferent to appending: one more element adds its
/// own contribution at the back.
proof fn lemma_count_matched_push(s: Seq<Option<usize>>, v: Option<usize>)
    ensures
        count_matched(s.push(v)) == count_matched(s) + (if v is Some {
            1nat
        } else {
            0nat
        }),
    decreases s.len(),
{
    if s.len() == 0 {
        assert(s.push(v)[0] == v);
        assert(s.push(v).drop_first() =~= s);
    } else {
        assert(s.push(v).drop_first() =~= s.drop_first().push(v));
        lemma_count_matched_push(s.drop_first(), v);
    }
}

/// The boolean feasibility grid between actual elements and matchers,
/// evaluated once per pair.
pub struct MatchMatrix {
    /// Cell (i, j): does matcher `j` match actual element `i`.
    pub grid: Vec<Vec<bool>>,
    /// The number of matchers, hence the width of every row.
    pub num_matchers: usize,
}

impl MatchMatrix {
    /// The grid's cells as a sequence of rows.
    pub open spec fn spec_cells(&self) -> Seq<Seq<bool>> {
        self.grid@.map_values(|row: Vec<bool>| row@)
    }

    /// Every row has one cell per matcher.
    pub open spec fn wf(&self) -> bool {
        grid_wf(self.spec_cells(), self.num_matchers as int)
    }

    /// Evaluate every (element, matcher) pair once.
    pub fn new<M: Matcher<u64>>(elements: &Vec<u64>, matchers: &Vec<M>) -> (r: MatchMatrix)
        ensures
            r.wf(),
            r.num_matchers == matchers@.len(),
            r.spec_cells().len() == elements@.len(),
            forall|i: int, j: int|
                0 <= i < elements@.len() && 0 <= j < matchers@.len()
                    ==> (#[trigger] r.spec_cells()[i][j]) == matchers@[j].spec_matches(
                    elements@[i],
                ),
    {
        let n = elements.len();
        let m = matchers.len();
        let mut grid: Vec<Vec<bool>> = Vec::new();
        let mut i: usize = 0;
        while i < n
            invariant
                i <= n,
                n == elements@.len(),
                m == matchers@.len(),
                grid@.len() == i,
                forall|ii: int| 0 <= ii < i ==> (#[trigger] grid@[ii])@.len() == m,
                forall|ii: int, jj: int|
                    0 <= ii < i && 0 <= jj < m ==> (#[trigger] grid@[ii]@[jj])
                        == matchers@[jj].spec_matches(elements@[ii]),
            decreases n - i,
        {
            let mut row: Vec<bool> = Vec::new();
            let mut j: usize = 0;
            while j < m
                invariant
                    i < n,
                    j <= m,
                    n == elements@.len(),
                    m == matchers@.len(),
                    row@.len() == j,
                    forall|jj: int|
                        0 <= jj < j ==> (#[trigger] row@[jj]) == matchers@[jj].spec_matches(
                            elements@[i as int],
                        ),
                decreases m - j,
            {
                let cell = matchers[j].matches(&elements[i]);
                row.push(cell.is_match());
                j = j + 1;
            }
            grid.push(row);
            i = i + 1;
        }
        let r = MatchMatrix { grid, num_matchers: m };
        proof {
            assert(forall|i: int, j: int|
                0 <= i < elements@.len() && 0 <= j < matchers@.len()
                    ==> (#[trigger] r.spec_cells()[i][j]) == matchers@[j].spec_matches(
                    elements@[i],
                ));
        }
        r
    }

    /// Grow a matching by one augmenting-path search per matcher.  The
    /// result is a valid assignment; moreover every unsatisfied
    /// matcher's feasible elements are all taken by other matchers, so
    /// no assignment could be extended pair by pair.
    pub fn max_matching(&self) -> (owner: Vec<Option<usize>>)
        requires
            self.wf(),
        ensures
            assignment_ok(owner@, self.spec_cells(), self.num_matchers as int),
            forall|j: int|
                0 <= j < self.num_matchers && !spec_assigned(owner@, j) ==> forall|i: int|
                    0 <= i < self.spec_cells().len() && self.spec_cells()[i][j]
                        ==> (#[trigger] owner@[i]) is Some,
    {
        let ghost g = self.spec_cells();
        let n = self.grid.len();
        let m = self.num_matchers;
        let mut owner: Vec<Option<usize>> = Vec::new();
        while owner.len() < n
            invariant
                owner@.len() <= n,
                forall|k: int| 0 <= k < owner@.len() ==> (#[trigger] owner@[k]) is None,
            decreases n - owner@.len(),
        {
            owner.push(None);
        }
        let mut j: usize = 0;
        while j < m
            invariant
                j <= m,
                n == self.grid@.len(),
                m == self.num_matchers,
                g == self.spec_cells(),
                grid_wf(g, m as int),
                owner@.len() == n,
                assignment_ok(owner@, g, m as int),
                forall|jj: int| j <= jj < m ==> !spec_assigned(owner@, jj),
                forall|jj: int|
                    0 <= jj < j && !spec_assigned(owner@, jj) ==> forall|i: int|
                        0 <= i < n && g[i][jj] ==> (#[trigger] owner@[i]) is Some,
            decreases m - j,
        {
            let mut visited: Vec<bool> = Vec::new();
            while visited.len() < n
                invariant
                    visited@.len() <= n,
                    forall|k: int| 0 <= k < visited@.len() ==> !(#[trigger] visited@[k]),
                decreases n - visited@.len(),
            {
                visited.push(false);
            }
            let ghost before = owner@;
            let ok = try_assign(&self.grid, m, j, &mut owner, &mut visited);
            proof {
                if !ok {
                    assert(owner@ == before);
                }
                assert forall|jj: int|
                    0 <= jj < j + 1 && !spec_assigned(owner@, jj) implies forall|i: int|
                    0 <= i < n && g[i][jj] ==> (#[trigger] owner@[i]) is Some by {
                    if jj == j {
                        if !ok {
                            assert forall|i: int| 0 <= i < n && g[i][jj] implies (
                            #[trigger] owner@[i]) is Some by {
                                assert(visited@[i]);
                            }
                        } else {
                            assert(spec_assigned(owner@, jj));
                        }
                    } else {
                        assert forall|i: int| 0 <= i < n && g[i][jj] implies (
                        #[trigger] owner@[i]) is Some by {
                            assert(before[i] is Some);
                        }
                    }
                }
            }
            j = j + 1;
        }
        owner
    }

    /// The number of elements the assignment covers.
    pub fn matched_count(owner: &Vec<Option<usize>>) -> (c: usize)
        ensures
            c == count_matched(owner@),
    {
        let mut c: usize = 0;
        let mut i: usize = 0;
        proof {
            assert(owner@.take(0) =~= Seq::<Option<usize>>::empty());
        }
        while i < owner.len()
            invariant
                i <= owner@.len(),
                c <= i,
                c == count_matched(owner@.take(i as int)),
            decreases owner@.len() - i,
        {
            proof {
                assert(owner@.take(i + 1 as int) =~= owner@.take(i as int).push(owner@[i as int]));
                lemma_count_matched_push(owner@.take(i as int), owner@[i as int]);
            }
            if owner[i].is_some() {
                c = c + 1;
            }
            i = i + 1;
        }
        proof {
            assert(owner@.take(owner@.len() as int) =~= owner@);
        }
        c
    }

    /// Whether the given matching size satisfies the policy for `n`
    /// elements and `m` matchers.
    pub open spec fn spec_verdict(n: nat, m: nat, size: nat, policy: Policy) -> bool {
        match policy {
            Policy::Exact => n == m && size == m,
            Policy::CoveringSubset => size == m,
            Policy::CoveringSuperset => size == n,
        }
    }

    /// Whether no element satisfies any matcher at all.
    pub fn all_infeasible(&self) -> (r: bool)
        requires
            self.wf(),
        ensures
            r == no_cell_true(self.spec_cells()),
    {
        let ghost g = self.spec_cells();
        let n = self.grid.len();
        let m = self.num_matchers;
        let mut i: usize = 0;
        while i < n
            invariant
                i <= n,
                n == self.grid@.len(),
                m == self.num_matchers,
                g == self.spec_cells(),
                grid_wf(g, m as int),
                forall|ii: int, jj: int| 0 <= ii < i && 0 <= jj < m ==> !(#[trigger] g[ii][jj]),
            decreases n - i,
        {
            proof {
                assert(g[i as int] == self.grid@[i as int]@);
            }
            let mut j: usize = 0;
            while j < m
                invariant
                    i < n,
                    j <= m,
                    n == self.grid@.len(),
                    m == self.num_matchers,
                    g == self.spec_cells(),
                    grid_wf(g, m as int),
                    g[i as int] == self.grid@[i as int]@,
                    forall|jj: int| 0 <= jj < j ==> !(#[trigger] g[i as int][jj]),
                decreases m - j,
            {
                if self.grid[i][j] {
                    proof {
                        assert(g[i as int][j as int]);
                    }
                    return false;
                }
                j = j + 1;
            }
            i = i + 1;
        }
        true
    }

    /// Decide the verdict of a computed matching under a policy.
    pub fn verdict(n: usize, m: usize, size: usize, policy: Policy) -> (r: bool)
        ensures
            r == MatchMatrix::spec_verdict(n as nat, m as nat, size as nat, policy),
    {
        match policy {
            Policy::Exact => n == m && size == m,
            Policy::CoveringSubset => size == m,
            Policy::CoveringSuperset => size == n,
        }
    }
}

/// Whether some element is assigned matcher `j`.
pub fn is_assigned(owner: &Vec<Option<usize>>, j: usize) -> (r: bool)
    ensures
        r == spec_assigned(owner@, j as int),
{
    let mut i: usize = 0;
    while i < owner.len()
        invariant
            i <= owner@.len(),
            forall|k: int| 0 <= k < i ==> #[trigger] owner@[k] != Some(j),
        decreases owner@.len() - i,
    {
        match owner[i] {
            Some(v) => {
                if v == j {
                    proof {
                        assert(owner@[i as int] == Some(j));
                    }
                    return true;
                }
            },
            None => {},
        }
        i = i + 1;
    }
    false
}

/// The uncovered matcher indices from `j` upward, in index order.
pub open spec fn spec_unsatisfied(owner: Seq<Option<usize>>, m: int, j: int) -> Seq<usize>
    decreases m - j,
{
    if j >= m || j < 0 {
        Seq::empty()
    } else {
        let rest = spec_unsatisfied(owner, m, j + 1);
        if !spec_assigned(owner, j) {
            seq![j as usize] + rest
        } else {
            rest
        }
    }
}

/// The matchers the assignment leaves uncovered, in index order.
pub fn unsatisfied_matchers(owner: &Vec<Option<usize>>, m: usize) -> (r: Vec<usize>)
    ensures
        r@ == spec_unsatisfied(owner@, m as int, 0),
{
    let mut r: Vec<usize> = Vec::new();
    let mut j: usize = 0;
    proof {
        assert(r@ + spec_unsatisfied(owner@, m as int, 0) =~= spec_unsatisfied(
            owner@,
            m as int,
            0,
        ));
    }
    while j < m
        invariant
            j <= m,
            r@ + spec_unsatisfied(owner@, m as int, j as int) == spec_unsatisfied(
                owner@,
                m as int,
                0,
            ),
        decreases m - j,
    {
        let ghost old_r = r@;
        if !is_assigned(owner, j) {
            r.push(j);
            proof {
                assert(spec_unsatisfied(owner@, m as int, j as int) == seq![j]
                    + spec_unsatisfied(owner@, m as int, j + 1));
                assert(r@ + spec_unsatisfied(owner@, m as int, j + 1) =~= old_r
                    + spec_unsatisfied(owner@, m as int, j as int));
            }
        } else {
            proof {
                assert(spec_unsatisfied(owner@, m as int, j as int) == spec_unsatisfied(
                    owner@,
                    m as int,
                    j + 1,
                ));
            }
        }
        j = j + 1;
    }
    proof {
        assert(spec_unsatisfied(owner@, m as int, m as int) =~= Seq::<usize>::empty());
        assert(r@ =~= r@ + Seq::<usize>::empty());
    }
    r
}

/// The elements left unmatched by the assignment, in element order.
pub open spec fn spec_unmatched(elements: Seq<u64>, owner: Seq<Option<usize>>) -> Seq<u64>
    decreases elements.len(),
{
    if elements.len() == 0 {
        Seq::empty()
    } else {
        let rest = spec_unmatched(elements.drop_first(), owner.drop_first());
        if owner[0] is None {
            seq![elements[0]] + rest
        } else {
            rest
        }
    }
}

/// The elements the assignment leaves unmatched, in order.
pub fn unmatched_elements(elements: &Vec<u64>, owner: &Vec<Option<usize>>) -> (r: Vec<u64>)
    requires
        elements@.len() == owner@.len(),
    ensures
        r@ == spec_unmatched(elements@, owner@),
{
    let n = elements.len();
    let mut r: Vec<u64> = Vec::new();
    let mut i: usize = 0;
    proof {
        assert(elements@.skip(0) =~= elements@);
        assert(owner@.skip(0) =~= owner@);
        assert(r@ + spec_unmatched(elements@, owner@) =~= spec_unmatched(elements@, owner@));
    }
    while i < n
        invariant
            i <= n,
            n == elements@.len(),
            elements@.len() == owner@.len(),
            r@ + spec_unmatched(elements@.skip(i as int), owner@.skip(i as int))
                == spec_unmatched(elements@, owner@),
        decreases n - i,
    {
        let ghost old_r = r@;
        proof {
            assert(elements@.skip(i as int)[0] == elements@[i as int]);
            assert(owner@.skip(i as int)[0] == owner@[i as int]);
            assert(elements@.skip(i as int).drop_first() =~= elements@.skip(i + 1));
            assert(owner@.skip(i as int).drop_first() =~= owner@.skip(i + 1));
        }
        if owner[i].is_none() {
            r.push(elements[i]);
            proof {
                assert(spec_unmatched(elements@.skip(i as int), owner@.skip(i as int))
                    == seq![elements@[i as int]] + spec_unmatched(
                    elements@.skip(i + 1),
                    owner@.skip(i + 1),
                ));
                assert(r@ + spec_unmatched(elements@.skip(i + 1), owner@.skip(i + 1)) =~= old_r
                    + spec_unmatched(elements@.skip(i as int), owner@.skip(i as int)));
            }
        } else {
            proof {
                assert(spec_unmatched(elements@.skip(i as int), owner@.skip(i as int))
                    == spec_unmatched(elements@.skip(i + 1), owner@.skip(i + 1)));
            }
        }
        i = i + 1;
    }
    proof {
        assert(elements@.skip(n as int).len() == 0);
        assert(spec_unmatched(elements@.skip(n as int), owner@.skip(n as int))
            =~= Seq::<u64>::empty());
        assert(r@ =~= r@ + Seq::<u64>::empty());
    }
    r
}

} // verus!

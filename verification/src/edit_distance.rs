//! Minimal edit distance between two sequences, and the edit script
//! that witnesses it.
//!
//! The distance follows the classic dynamic-programming recurrence
//! with unit cost per insert, delete and substitute.  The script is
//! recovered by a deterministic backtrace that prefers substitution
//! over a delete-insert pair of equal cost.

use vstd::prelude::*;

verus! {

/// One operation of an edit script, consuming the two sequences from
/// the front: `Copy` keeps an element common to both, `Delete` drops
/// an element only the actual sequence has, `Insert` adds an element
/// only the expected sequence has, `Substitute` replaces an actual
/// element by an expected one.
#[derive(Clone, Copy, Debug, PartialEq, Eq, Structural)]
pub enum Edit {
    Copy { value: u64 },
    Insert { expected: u64 },
    Delete { actual: u64 },
    Substitute { actual: u64, expected: u64 },
}

/// The least of three naturals.
pub open spec fn min3(a: nat, b: nat, c: nat) -> nat {
    if a <= b && a <= c {
        a
    } else if b <= c {
        b
    } else {
        c
    }
}

/// The minimal number of insert, delete and substitute operations
/// transforming `a` into `b`: the classic recurrence over the two
/// sequences' last elements.
pub open spec fn edit_dist(a: Seq<u64>, b: Seq<u64>) -> nat
    decreases a.len() + b.len(),
{
    if a.len() == 0 {
        b.len()
    } else if b.len() == 0 {
        a.len()
    } else {
        let del = edit_dist(a.drop_last(), b) + 1;
        let ins = edit_dist(a, b.drop_last()) + 1;
        let sub = edit_dist(a.drop_last(), b.drop_last()) + if a.last() == b.last() {
            0nat
        } else {
            1nat
        };
        min3(del, ins, sub)
    }
}

/// Whether `script`, applied operation by operation, consumes all of
/// `a` and produces all of `b`.
pub open spec fn script_applies(script: Seq<Edit>, a: Seq<u64>, b: Seq<u64>) -> bool
    decreases script.len(),
{
    if script.len() == 0 {
        a.len() == 0 && b.len() == 0
    } else {
        match script[0] {
            Edit::Copy { value } => a.len() > 0 && b.len() > 0 && a[0] == value && b[0] == value
                && script_applies(script.drop_first(), a.drop_first(), b.drop_first()),
            Edit::Insert { expected } => b.len() > 0 && b[0] == expected && script_applies(
                script.drop_first(),
                a,
                b.drop_first(),
            ),
            Edit::Delete { actual } => a.len() > 0 && a[0] == actual && script_applies(
                script.drop_first(),
                a.drop_first(),
                b,
            ),
            Edit::Substitute { actual, expected } => a.len() > 0 && b.len() > 0 && a[0] == actual
                && b[0] == expected && script_applies(
                script.drop_first(),
                a.drop_first(),
                b.drop_first(),
            ),
        }
    }
}

/// The total cost of a script: one per operation other than `Copy`.
pub open spec fn script_cost(script: Seq<Edit>) -> nat
    decreases script.len(),
{
    if script.len() == 0 {
        0
    } else {
        (if script[0] is Copy {
            0nat
        } else {
            1nat
        }) + script_cost(script.drop_first())
    }
}

/// The distance never exceeds the two lengths together.
pub proof fn lemma_edit_dist_le(a: Seq<u64>, b: Seq<u64>)
    ensures
        edit_dist(a, b) <= a.len() + b.len(),
    decreases a.len() + b.len(),
{
    if a.len() == 0 || b.len() == 0 {
    } else {
        lemma_edit_dist_le(a.drop_last(), b);
        lemma_edit_dist_le(a, b.drop_last());
        lemma_edit_dist_le(a.drop_last(), b.drop_last());
    }
}

/// Against an empty sequence the distance is the other's length.
pub proof fn lemma_edit_dist_empty(a: Seq<u64>, b: Seq<u64>)
    ensures
        edit_dist(Seq::empty(), b) == b.len(),
        edit_dist(a, Seq::empty()) == a.len(),
{
}

/// The recurrence holds just as well over the first elements as over
/// the last.
#[verifier::rlimit(100)]
proof fn lemma_edit_dist_front(a: Seq<u64>, b: Seq<u64>)
    requires
        a.len() > 0,
        b.len() > 0,
    ensures
        edit_dist(a, b) == min3(
            edit_dist(a.drop_first(), b) + 1,
            edit_dist(a, b.drop_first()) + 1,
            edit_dist(a.drop_first(), b.drop_first()) + if a.first() == b.first() {
                0nat
            } else {
                1nat
            },
        ),
    decreases a.len() + b.len(), 1int,
{
    let af = a.drop_first();
    let bf = b.drop_first();
    let al = a.drop_last();
    let bl = b.drop_last();
    if a.len() == 1 && b.len() == 1 {
        assert(af =~= Seq::<u64>::empty());
        assert(bf =~= Seq::<u64>::empty());
        assert(al =~= Seq::<u64>::empty());
        assert(bl =~= Seq::<u64>::empty());
        assert(a.first() == a.last());
        assert(b.first() == b.last());
    } else if a.len() == 1 {
        assert(af =~= Seq::<u64>::empty());
        assert(al =~= Seq::<u64>::empty());
        assert(bl.len() == b.len() - 1);
        assert(bl[0] == b[0]);
        assert(bf.last() == b.last());
        assert(bl.drop_first() =~= bf.drop_last());
        assert(a.first() == a.last());
        lemma_edit_dist_front(a, bl);
        assert(edit_dist(a, bf) == min3(
            edit_dist(Seq::empty(), bf) + 1,
            edit_dist(a, bf.drop_last()) + 1,
            edit_dist(Seq::empty(), bf.drop_last()) + if a.last() == bf.last() {
                0nat
            } else {
                1nat
            },
        )) by {
            if bf.len() == 0 {
                assert(false);
            }
            assert(a.drop_last() =~= Seq::<u64>::empty());
        }
        lemma_edit_dist_empty(a, b);
        lemma_edit_dist_empty(a, bf);
        lemma_edit_dist_empty(a, bl);
        lemma_edit_dist_empty(a, bl.drop_first());
    } else if b.len() == 1 {
        assert(bf =~= Seq::<u64>::empty());
        assert(bl =~= Seq::<u64>::empty());
        assert(al.len() == a.len() - 1);
        assert(al[0] == a[0]);
        assert(af.last() == a.last());
        assert(al.drop_first() =~= af.drop_last());
        assert(b.first() == b.last());
        lemma_edit_dist_front(al, b);
        assert(edit_dist(af, b) == min3(
            edit_dist(af.drop_last(), b) + 1,
            edit_dist(af, Seq::empty()) + 1,
            edit_dist(af.drop_last(), Seq::empty()) + if af.last() == b.last() {
                0nat
            } else {
                1nat
            },
        )) by {
            if af.len() == 0 {
                assert(false);
            }
            assert(b.drop_last() =~= Seq::<u64>::empty());
        }
        lemma_edit_dist_empty(a, b);
        lemma_edit_dist_empty(af, b);
        lemma_edit_dist_empty(al, b);
        lemma_edit_dist_empty(al.drop_first(), b);
    } else {
        lemma_edit_dist_front_step(a, b);
    }
}

/// Shuffling a three-by-three grid of costs: the minimum over rows
/// equals the minimum over columns, since both flatten the same nine
/// terms.
#[verifier::spinoff_prover]
proof fn lemma_min3_grid(
    x1: nat,
    x2: nat,
    x3: nat,
    x4: nat,
    x5: nat,
    x6: nat,
    x7: nat,
    x8: nat,
    x9: nat,
    c0: nat,
    cl: nat,
)
    ensures
        min3(
            min3(x1 + 1, x2 + 1, x3 + c0) + 1,
            min3(x4 + 1, x5 + 1, x6 + c0) + 1,
            min3(x7 + 1, x8 + 1, x9 + c0) + cl,
        ) == min3(
            min3(x1 + 1, x4 + 1, x7 + cl) + 1,
            min3(x2 + 1, x5 + 1, x8 + cl) + 1,
            min3(x3 + 1, x6 + 1, x9 + cl) + c0,
        ),
{
}

/// The inductive case of the front-recurrence proof: both sequences
/// hold at least two elements.
#[verifier::rlimit(100)]
#[verifier::spinoff_prover]
proof fn lemma_edit_dist_front_step(a: Seq<u64>, b: Seq<u64>)
    requires
        a.len() >= 2,
        b.len() >= 2,
    ensures
        edit_dist(a, b) == min3(
            edit_dist(a.drop_first(), b) + 1,
            edit_dist(a, b.drop_first()) + 1,
            edit_dist(a.drop_first(), b.drop_first()) + if a.first() == b.first() {
                0nat
            } else {
                1nat
            },
        ),
    decreases a.len() + b.len(), 0int,
{
    let af = a.drop_first();
    let bf = b.drop_first();
    let al = a.drop_last();
    let bl = b.drop_last();
    let aa = al.drop_first();
    let bb = bl.drop_first();
    let c0: nat = if a.first() == b.first() {
        0nat
    } else {
        1nat
    };
    let cl: nat = if a.last() == b.last() {
        0nat
    } else {
        1nat
    };
    assert(aa =~= af.drop_last());
    assert(bb =~= bf.drop_last());
    assert(al.first() == a.first());
    assert(bl.first() == b.first());
    assert(af.last() == a.last());
    assert(bf.last() == b.last());
    let x1 = edit_dist(aa, b);
    let x2 = edit_dist(al, bf);
    let x3 = edit_dist(aa, bf);
    let x4 = edit_dist(af, bl);
    let x5 = edit_dist(a, bb);
    let x6 = edit_dist(af, bb);
    let x7 = edit_dist(aa, bl);
    let x8 = edit_dist(al, bb);
    let x9 = edit_dist(aa, bb);
    lemma_edit_dist_front(al, b);
    assert(edit_dist(al, b) == min3(x1 + 1, x2 + 1, x3 + c0));
    lemma_edit_dist_front(a, bl);
    assert(edit_dist(a, bl) == min3(x4 + 1, x5 + 1, x6 + c0));
    lemma_edit_dist_front(al, bl);
    assert(edit_dist(al, bl) == min3(x7 + 1, x8 + 1, x9 + c0));
    assert(edit_dist(a, b) == min3(
        min3(x1 + 1, x2 + 1, x3 + c0) + 1,
        min3(x4 + 1, x5 + 1, x6 + c0) + 1,
        min3(x7 + 1, x8 + 1, x9 + c0) + cl,
    ));
    assert(edit_dist(af, b) == min3(x1 + 1, x4 + 1, x7 + cl)) by {
        assert(af.len() > 0 && b.len() > 0);
        assert(af.drop_last() == aa);
    }
    assert(edit_dist(a, bf) == min3(x2 + 1, x5 + 1, x8 + cl)) by {
        assert(a.len() > 0 && bf.len() > 0);
        assert(bf.drop_last() == bb);
    }
    assert(edit_dist(af, bf) == min3(x3 + 1, x6 + 1, x9 + cl)) by {
        assert(af.len() > 0 && bf.len() > 0);
        assert(af.drop_last() == aa);
        assert(bf.drop_last() == bb);
    }
    lemma_min3_grid(x1, x2, x3, x4, x5, x6, x7, x8, x9, c0, cl);
    assert(edit_dist(a, b) == min3(
        edit_dist(af, b) + 1,
        edit_dist(a, bf) + 1,
        edit_dist(af, bf) + c0,
    ));
}

/// No script does better than the distance: whatever sequence of
/// operations turns `a` into `b` costs at least `edit_dist(a, b)`.
/// Together with the script that `edit_list` computes, whose cost is
/// exactly the distance, this pins the distance as the true minimum.
pub proof fn lemma_script_cost_minimal(s: Seq<Edit>, a: Seq<u64>, b: Seq<u64>)
    requires
        script_applies(s, a, b),
    ensures
        script_cost(s) >= edit_dist(a, b),
    decreases s.len(),
{
    if s.len() == 0 {
    } else {
        let rest = s.drop_first();
        match s[0] {
            Edit::Copy { value } => {
                lemma_script_cost_minimal(rest, a.drop_first(), b.drop_first());
                lemma_edit_dist_front(a, b);
            },
            Edit::Insert { expected } => {
                lemma_script_cost_minimal(rest, a, b.drop_first());
                if a.len() == 0 {
                    lemma_edit_dist_empty(a, b);
                    lemma_edit_dist_empty(a, b.drop_first());
                    assert(a =~= Seq::<u64>::empty());
                } else {
                    lemma_edit_dist_front(a, b);
                }
            },
            Edit::Delete { actual } => {
                lemma_script_cost_minimal(rest, a.drop_first(), b);
                if b.len() == 0 {
                    lemma_edit_dist_empty(a, b);
                    lemma_edit_dist_empty(a.drop_first(), b);
                    assert(b =~= Seq::<u64>::empty());
                } else {
                    lemma_edit_dist_front(a, b);
                }
            },
            Edit::Substitute { actual, expected } => {
                lemma_script_cost_minimal(rest, a.drop_first(), b.drop_first());
                lemma_edit_dist_front(a, b);
            },
        }
    }
}

/// The distance is symmetric: swapping the two sequences exchanges
/// the roles of insert and delete but not the total cost.
pub proof fn lemma_edit_dist_symmetric(a: Seq<u64>, b: Seq<u64>)
    ensures
        edit_dist(a, b) == edit_dist(b, a),
    decreases a.len() + b.len(),
{
    if a.len() == 0 || b.len() == 0 {
    } else {
        lemma_edit_dist_symmetric(a.drop_last(), b);
        lemma_edit_dist_symmetric(a, b.drop_last());
        lemma_edit_dist_symmetric(a.drop_last(), b.drop_last());
    }
}

/// The distance of a sequence to itself is zero.
pub proof fn lemma_self_edit_dist_zero(s: Seq<u64>)
    ensures
        edit_dist(s, s) == 0,
    decreases s.len(),
{
    if s.len() == 0 {
    } else {
        lemma_self_edit_dist_zero(s.drop_last());
    }
}

/// Facts about a nonempty prefix: dropping its last element shortens
/// the prefix by one, and its last element is the one at `k - 1`.
proof fn lemma_take_facts(s: Seq<u64>, k: int)
    requires
        1 <= k <= s.len(),
    ensures
        s.take(k).drop_last() == s.take(k - 1),
        s.take(k).last() == s[k - 1],
        s.take(k).len() == k,
{
    assert(s.take(k).drop_last() =~= s.take(k - 1));
}

/// Executable minimum of three.
fn min3_exec(a: usize, b: usize, c: usize) -> (r: usize)
    ensures
        r == min3(a as nat, b as nat, c as nat),
{
    if a <= b && a <= c {
        a
    } else if b <= c {
        b
    } else {
        c
    }
}

/// The dynamic-programming table: cell (i, j) holds the edit distance
/// between the first `i` elements of `a` and the first `j` of `b`.
fn edit_dist_table(a: &Vec<u64>, b: &Vec<u64>) -> (t: Vec<Vec<usize>>)
    requires
        a@.len() + b@.len() < usize::MAX,
    ensures
        t@.len() == a@.len() + 1,
        forall|i: int| 0 <= i <= a@.len() ==> (#[trigger] t@[i])@.len() == b@.len() + 1,
        forall|i: int, j: int|
            0 <= i <= a@.len() && 0 <= j <= b@.len() ==> (#[trigger] t@[i]@[j]) == edit_dist(
                a@.take(i),
                b@.take(j),
            ),
{
    let n = a.len();
    let m = b.len();
    let mut t: Vec<Vec<usize>> = Vec::new();
    let mut row0: Vec<usize> = Vec::new();
    let mut j: usize = 0;
    while j <= m
        invariant
            j <= m + 1,
            m == b@.len(),
            a@.len() + b@.len() < usize::MAX,
            row0@.len() == j,
            forall|jj: int| 0 <= jj < j ==> row0@[jj] == edit_dist(a@.take(0), b@.take(jj)),
        decreases m + 1 - j,
    {
        proof {
            assert(a@.take(0).len() == 0);
            assert(b@.take(j as int).len() == j);
        }
        row0.push(j);
        j = j + 1;
    }
    t.push(row0);
    let mut i: usize = 1;
    while i <= n
        invariant
            1 <= i <= n + 1,
            n == a@.len(),
            m == b@.len(),
            a@.len() + b@.len() < usize::MAX,
            t@.len() == i,
            forall|ii: int| 0 <= ii < i ==> (#[trigger] t@[ii])@.len() == m + 1,
            forall|ii: int, jj: int|
                0 <= ii < i && 0 <= jj <= m ==> (#[trigger] t@[ii]@[jj]) == edit_dist(
                    a@.take(ii),
                    b@.take(jj),
                ),
        decreases n + 1 - i,
    {
        let mut cur: Vec<usize> = Vec::new();
        proof {
            assert(a@.take(i as int).len() == i);
            assert(b@.take(0).len() == 0);
        }
        cur.push(i);
        let mut j: usize = 1;
        while j <= m
            invariant
                1 <= i <= n,
                1 <= j <= m + 1,
                n == a@.len(),
                m == b@.len(),
                a@.len() + b@.len() < usize::MAX,
                t@.len() == i,
                forall|ii: int| 0 <= ii < i ==> (#[trigger] t@[ii])@.len() == m + 1,
                forall|ii: int, jj: int|
                    0 <= ii < i && 0 <= jj <= m ==> (#[trigger] t@[ii]@[jj]) == edit_dist(
                        a@.take(ii),
                        b@.take(jj),
                    ),
                cur@.len() == j,
                forall|jj: int|
                    0 <= jj < j ==> cur@[jj] == edit_dist(a@.take(i as int), b@.take(jj)),
            decreases m + 1 - j,
        {
            proof {
                lemma_edit_dist_le(a@.take(i - 1), b@.take(j as int));
                lemma_edit_dist_le(a@.take(i as int), b@.take(j - 1));
                lemma_edit_dist_le(a@.take(i - 1), b@.take(j - 1));
                lemma_take_facts(a@, i as int);
                lemma_take_facts(b@, j as int);
            }
            let prev = &t[i - 1];
            let del = prev[j] + 1;
            let ins = cur[j - 1] + 1;
            let same = a[i - 1] == b[j - 1];
            let sub = if same {
                prev[j - 1]
            } else {
                prev[j - 1] + 1
            };
            let cell = min3_exec(del, ins, sub);
            proof {
                assert(edit_dist(a@.take(i as int), b@.take(j as int)) == min3(
                    edit_dist(a@.take(i - 1), b@.take(j as int)) + 1,
                    edit_dist(a@.take(i as int), b@.take(j - 1)) + 1,
                    edit_dist(a@.take(i - 1), b@.take(j - 1)) + if a@[i - 1] == b@[j - 1] {
                        0nat
                    } else {
                        1nat
                    },
                ));
            }
            cur.push(cell);
            j = j + 1;
        }
        t.push(cur);
        i = i + 1;
    }
    t
}

/// Compute the ordered edit script transforming `actual` into
/// `expected`.  The script consumes the whole of both sequences and
/// its total cost is exactly the minimal edit distance.
pub fn edit_list(actual: &Vec<u64>, expected: &Vec<u64>) -> (script: Vec<Edit>)
    requires
        actual@.len() + expected@.len() < usize::MAX,
    ensures
        script_applies(script@, actual@, expected@),
        script_cost(script@) == edit_dist(actual@, expected@),
{
    let t = edit_dist_table(actual, expected);
    let n = actual.len();
    let m = expected.len();
    let mut i: usize = n;
    let mut j: usize = m;
    let mut script: Vec<Edit> = Vec::new();
    proof {
        assert(actual@.take(n as int) =~= actual@);
        assert(expected@.take(m as int) =~= expected@);
        assert(actual@.skip(n as int).len() == 0);
        assert(expected@.skip(m as int).len() == 0);
    }
    while i > 0 || j > 0
        invariant
            i <= n,
            j <= m,
            n == actual@.len(),
            m == expected@.len(),
            actual@.len() + expected@.len() < usize::MAX,
            t@.len() == n + 1,
            forall|ii: int| 0 <= ii <= n ==> (#[trigger] t@[ii])@.len() == m + 1,
            forall|ii: int, jj: int|
                0 <= ii <= n && 0 <= jj <= m ==> (#[trigger] t@[ii]@[jj]) == edit_dist(
                    actual@.take(ii),
                    expected@.take(jj),
                ),
            script_applies(script@, actual@.skip(i as int), expected@.skip(j as int)),
            script_cost(script@) + edit_dist(actual@.take(i as int), expected@.take(j as int))
                == edit_dist(actual@, expected@),
        decreases i + j,
    {
        let ghost old_script = script@;
        proof {
            if i > 0 && j > 0 {
                lemma_edit_dist_le(actual@.take(i - 1), expected@.take(j - 1));
            }
            if i > 0 {
                lemma_edit_dist_le(actual@.take(i - 1), expected@.take(j as int));
            }
            if j > 0 {
                lemma_edit_dist_le(actual@.take(i as int), expected@.take(j - 1));
            }
            if i > 0 {
                lemma_take_facts(actual@, i as int);
                assert(actual@.skip(i - 1).drop_first() =~= actual@.skip(i as int));
                assert(actual@.skip(i - 1)[0] == actual@[i - 1]);
            }
            if j > 0 {
                lemma_take_facts(expected@, j as int);
                assert(expected@.skip(j - 1).drop_first() =~= expected@.skip(j as int));
                assert(expected@.skip(j - 1)[0] == expected@[j - 1]);
            }
            if i > 0 && j > 0 {
                assert(edit_dist(actual@.take(i as int), expected@.take(j as int)) == min3(
                    edit_dist(actual@.take(i - 1), expected@.take(j as int)) + 1,
                    edit_dist(actual@.take(i as int), expected@.take(j - 1)) + 1,
                    edit_dist(actual@.take(i - 1), expected@.take(j - 1)) + if actual@[i - 1]
                        == expected@[j - 1] {
                        0nat
                    } else {
                        1nat
                    },
                ));
            }
        }
        if i > 0 && j > 0 && actual[i - 1] == expected[j - 1] && t[i - 1][j - 1] == t[i][j] {
            script.insert(0, Edit::Copy { value: actual[i - 1] });
            proof {
                assert(script@.drop_first() =~= old_script);
            }
            i = i - 1;
            j = j - 1;
        } else if i > 0 && j > 0 && t[i - 1][j - 1] + 1 == t[i][j] {
            script.insert(
                0,
                Edit::Substitute { actual: actual[i - 1], expected: expected[j - 1] },
            );
            proof {
                assert(script@.drop_first() =~= old_script);
            }
            i = i - 1;
            j = j - 1;
        } else if i > 0 && t[i - 1][j] + 1 == t[i][j] {
            script.insert(0, Edit::Delete { actual: actual[i - 1] });
            proof {
                assert(script@.drop_first() =~= old_script);
            }
            i = i - 1;
        } else {
            proof {
                assert(j > 0);
                assert(t@[i as int]@[j - 1] + 1 == t@[i as int]@[j as int]);
            }
            script.insert(0, Edit::Insert { expected: expected[j - 1] });
            proof {
                assert(script@.drop_first() =~= old_script);
            }
            j = j - 1;
        }
    }
    proof {
        assert(actual@.skip(0) =~= actual@);
        assert(expected@.skip(0) =~= expected@);
        assert(actual@.take(0).len() == 0);
        assert(expected@.take(0).len() == 0);
    }
    script
}

/// A script of cost zero holds nothing but `Copy` operations.
pub proof fn lemma_zero_cost_all_copies(script: Seq<Edit>)
    requires
        script_cost(script) == 0,
    ensures
        forall|k: int| 0 <= k < script.len() ==> script[k] is Copy,
    decreases script.len(),
{
    if script.len() == 0 {
    } else {
        lemma_zero_cost_all_copies(script.drop_first());
        assert(forall|k: int|
            1 <= k < script.len() ==> script[k] == script.drop_first()[k - 1]);
    }
}

} // verus!

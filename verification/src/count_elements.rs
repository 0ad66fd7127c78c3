//! Frequency counting over a sequence: each distinct value with its
//! number of occurrences.
//!
//! Equality between elements is decided pairwise, value by value, in
//! quadratically many comparisons — matcher equivalence, not hashing,
//! defines sameness in this library, and fixture-sized inputs make
//! the cost acceptable.

use vstd::prelude::*;

verus! {

/// How often `v` occurs in `s`.
pub open spec fn count_in(s: Seq<u64>, v: u64) -> nat
    decreases s.len(),
{
    if s.len() == 0 {
        0
    } else {
        (if s[0] == v {
            1nat
        } else {
            0nat
        }) + count_in(s.drop_first(), v)
    }
}

/// Counting one more element adds its own contribution at the back.
proof fn lemma_count_in_push(s: Seq<u64>, x: u64, v: u64)
    ensures
        count_in(s.push(x), v) == count_in(s, v) + (if x == v {
            1nat
        } else {
            0nat
        }),
    decreases s.len(),
{
    if s.len() == 0 {
        assert(s.push(x)[0] == x);
        assert(s.push(x).drop_first() =~= s);
    } else {
        assert(s.push(x).drop_first() =~= s.drop_first().push(x));
        lemma_count_in_push(s.drop_first(), x, v);
    }
}

/// Whether the table carries an entry for `v`.
pub open spec fn table_has(table: Seq<(u64, usize)>, v: u64) -> bool {
    exists|k: int| 0 <= k < table.len() && (#[trigger] table[k]).0 == v
}

/// Whether the table already carries an entry for `v`.
fn has_entry(table: &Vec<(u64, usize)>, v: u64) -> (r: bool)
    ensures
        r == table_has(table@, v),
{
    let mut k: usize = 0;
    while k < table.len()
        invariant
            k <= table@.len(),
            forall|kk: int| 0 <= kk < k ==> (#[trigger] table@[kk]).0 != v,
        decreases table@.len() - k,
    {
        if table[k].0 == v {
            proof {
                assert(table@[k as int].0 == v);
            }
            return true;
        }
        k = k + 1;
    }
    false
}

/// How often `v` occurs in `s`, by pairwise comparison.
fn occurrences(s: &Vec<u64>, v: u64) -> (c: usize)
    ensures
        c == count_in(s@, v),
{
    let mut c: usize = 0;
    let mut i: usize = 0;
    proof {
        assert(s@.take(0) =~= Seq::<u64>::empty());
    }
    while i < s.len()
        invariant
            i <= s@.len(),
            c <= i,
            c == count_in(s@.take(i as int), v),
        decreases s@.len() - i,
    {
        proof {
            assert(s@.take(i + 1 as int) =~= s@.take(i as int).push(s@[i as int]));
            lemma_count_in_push(s@.take(i as int), s@[i as int], v);
        }
        if s[i] == v {
            c = c + 1;
        }
        i = i + 1;
    }
    proof {
        assert(s@.take(s@.len() as int) =~= s@);
    }
    c
}

/// The frequency table of `s`: every distinct value exactly once, in
/// order of first occurrence, with its occurrence count.
pub fn count_elements(s: &Vec<u64>) -> (table: Vec<(u64, usize)>)
    ensures
        forall|k: int|
            0 <= k < table@.len() ==> count_in(s@, (#[trigger] table@[k]).0) == table@[k].1
                && table@[k].1 > 0,
        forall|k1: int, k2: int|
            0 <= k1 < k2 < table@.len() ==> (#[trigger] table@[k1]).0 != (#[trigger] table@[k2]).0,
        forall|i: int| 0 <= i < s@.len() ==> table_has(table@, #[trigger] s@[i]),
{
    let mut table: Vec<(u64, usize)> = Vec::new();
    let mut i: usize = 0;
    while i < s.len()
        invariant
            i <= s@.len(),
            forall|k: int|
                0 <= k < table@.len() ==> count_in(s@, (#[trigger] table@[k]).0) == table@[k].1
                    && table@[k].1 > 0,
            forall|k1: int, k2: int|
                0 <= k1 < k2 < table@.len() ==> (#[trigger] table@[k1]).0 != (
                #[trigger] table@[k2]).0,
            forall|ii: int| 0 <= ii < i ==> table_has(table@, #[trigger] s@[ii]),
        decreases s@.len() - i,
    {
        let v = s[i];
        let ghost old_table = table@;
        if !has_entry(&table, v) {
            let c = occurrences(s, v);
            proof {
                assert(count_in(s@, v) > 0) by {
                    lemma_count_in_positive(s@, i as int);
                }
            }
            table.push((v, c));
            proof {
                assert(table@[table@.len() - 1] == (v, c));
                assert forall|k1: int, k2: int|
                    0 <= k1 < k2 < table@.len() implies (#[trigger] table@[k1]).0 != (
                #[trigger] table@[k2]).0 by {
                    if k2 == table@.len() - 1 {
                        assert(old_table[k1].0 != v);
                    }
                }
            }
        }
        proof {
            assert forall|ii: int| 0 <= ii < i + 1 implies table_has(
                table@,
                #[trigger] s@[ii],
            ) by {
                if ii < i {
                    assert(table_has(old_table, s@[ii]));
                    let w = choose|k: int| 0 <= k < old_table.len() && (#[trigger] old_table[k]).0
                        == s@[ii];
                    assert(table@[w].0 == s@[ii]);
                } else {
                    assert(table_has(table@, v));
                }
            }
        }
        i = i + 1;
    }
    table
}

/// A value read from the sequence occurs in it.
proof fn lemma_count_in_positive(s: Seq<u64>, i: int)
    requires
        0 <= i < s.len(),
    ensures
        count_in(s, s[i]) > 0,
    decreases s.len(),
{
    if i == 0 {
    } else {
        lemma_count_in_positive(s.drop_first(), i - 1);
    }
}

} // verus!

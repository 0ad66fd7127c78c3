//! Paired iteration over two sequences of possibly unequal length.
//!
//! Pairs are drawn by matching index; when one side is exhausted the
//! pair carries an explicit absent marker instead of stopping, so a
//! consumer can pinpoint the exact index where the lengths diverge.

use vstd::prelude::*;

verus! {

/// A single forward pass over two sequences, pairing same-index
/// elements and marking the exhausted side.
pub struct ZippedIterator {
    pub left: Vec<u64>,
    pub right: Vec<u64>,
    pub pos: usize,
}

impl ZippedIterator {
    /// How many pairs the pass yields in all: the longer length.
    pub open spec fn spec_len(&self) -> nat {
        if self.left@.len() >= self.right@.len() {
            self.left@.len()
        } else {
            self.right@.len()
        }
    }

    /// The pair at position `k`: an element from each side while it
    /// lasts, the absent marker once it is exhausted.
    pub open spec fn spec_pair(&self, k: int) -> (Option<u64>, Option<u64>) {
        (
            if k < self.left@.len() {
                Some(self.left@[k])
            } else {
                None
            },
            if k < self.right@.len() {
                Some(self.right@[k])
            } else {
                None
            },
        )
    }

    /// Start a pass over the two sequences.
    pub fn new(left: Vec<u64>, right: Vec<u64>) -> (r: ZippedIterator)
        ensures
            r.left == left,
            r.right == right,
            r.pos == 0,
    {
        ZippedIterator { left, right, pos: 0 }
    }

    /// Yield the next pair, or nothing once both sides are exhausted.
    pub fn next(&mut self) -> (r: Option<(Option<u64>, Option<u64>)>)
        ensures
            final(self).left == old(self).left,
            final(self).right == old(self).right,
            old(self).pos >= old(self).spec_len() ==> r is None && final(self).pos == old(
                self,
            ).pos,
            old(self).pos < old(self).spec_len() ==> r == Some(
                old(self).spec_pair(old(self).pos as int),
            ) && final(self).pos == old(self).pos + 1,
    {
        let l = if self.pos < self.left.len() {
            Some(self.left[self.pos])
        } else {
            None
        };
        let rgt = if self.pos < self.right.len() {
            Some(self.right[self.pos])
        } else {
            None
        };
        if l.is_none() && rgt.is_none() {
            None
        } else {
            self.pos = self.pos + 1;
            Some((l, rgt))
        }
    }
}

} // verus!

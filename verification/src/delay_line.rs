//! A fixed-capacity ring buffer of past signal values.

use vstd::prelude::*;
use vstd::pervasive::VecAdditionalExecFns;

verus! {

/// A ring buffer holding the last `capacity` values pushed, all slots
/// starting at the neutral value 0.
pub struct DelayLine {
    pub capacity: usize,
    pub idx: usize,
    pub buff: Vec<i64>,
}

impl DelayLine {
    /// Structural soundness of the ring buffer.
    pub open spec fn wf(self) -> bool {
        &&& self.capacity >= 1
        &&& self.idx < self.capacity
        &&& self.buff@.len() == self.capacity
    }

    /// The buffer slot holding the value pushed `steps` pushes ago
    /// (modulo the capacity).
    pub open spec fn back_index(self, steps: int) -> int {
        let i = (steps + 1) % (self.capacity as int);
        if i > self.idx {
            self.idx + self.capacity - i
        } else {
            self.idx - i
        }
    }

    /// A capacity below 1 is clamped to 1.
    pub fn new(capacity: usize) -> (r: Self)
        ensures
            r.wf(),
            r.capacity == if capacity < 1 { 1int } else { capacity as int },
            r.idx == 0,
            forall|j: int| 0 <= j < r.buff@.len() ==> r.buff@[j] == 0,
    {
        let c = if capacity < 1 { 1 } else { capacity };
        let mut buff: Vec<i64> = Vec::with_capacity(c);
        let mut i: usize = 0;
        while i < c
            invariant
                i <= c,
                buff@.len() == i,
                forall|j: int| 0 <= j < i ==> buff@[j] == 0,
            decreases c - i,
        {
            buff.push(0);
            i = i + 1;
        }
        DelayLine { capacity: c, idx: 0, buff }
    }

    /// Overwrite the oldest slot with `v` and advance the cursor.
    pub fn push(&mut self, v: i64)
        requires
            old(self).wf(),
        ensures
            final(self).wf(),
            final(self).capacity == old(self).capacity,
            final(self).buff@ == old(self).buff@.update(old(self).idx as int, v),
            final(self).idx == if old(self).idx + 1 == old(self).capacity {
                0int
            } else {
                old(self).idx + 1
            },
    {
        let i = self.idx;
        self.buff.set(i, v);
        self.idx = self.idx + 1;
        if self.idx == self.capacity {
            self.idx = 0;
        }
    }

    /// Read the value pushed `steps` pushes ago (modulo the capacity).
    pub fn get_shifted_back(&self, steps: usize) -> (r: i64)
        requires
            self.wf(),
            steps < usize::MAX,
        ensures
            r == self.buff@[self.back_index(steps as int)],
    {
        let i = (steps + 1) % self.capacity;
        let j = if i > self.idx {
            self.idx + (self.capacity - i)
        } else {
            self.idx - i
        };
        self.buff[j]
    }
}

} // verus!

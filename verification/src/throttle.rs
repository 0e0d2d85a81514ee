//! A counting pool of permits that bounds the bulk calls in flight.

use vstd::prelude::*;

verus! {

/// A pool of permits: a call takes one before it starts and gives it back
/// when it has resolved, whatever the outcome.
#[derive(Debug, Clone, Copy)]
pub struct Throttle {
    capacity: usize,
    in_use: usize,
}

impl Throttle {
    /// The number of permits the pool was made with.
    pub closed spec fn capacity(&self) -> nat {
        self.capacity as nat
    }

    /// The number of permits that are taken and not yet given back.
    pub closed spec fn in_use(&self) -> nat {
        self.in_use as nat
    }

    /// The pool's invariant: it has at least one permit, and never more are
    /// taken than it has.
    pub closed spec fn wf(&self) -> bool {
        1 <= self.capacity && self.in_use <= self.capacity
    }

    /// What the invariant says of the accessors.
    pub proof fn lemma_wf(&self)
        requires
            self.wf(),
        ensures
            1 <= self.capacity() <= usize::MAX,
            self.in_use() <= self.capacity(),
    {
    }

    /// A pool of `capacity` permits, none of them taken.
    pub fn new(capacity: usize) -> (throttle: Throttle)
        requires
            capacity >= 1,
        ensures
            throttle.wf(),
            throttle.capacity() == capacity,
            throttle.in_use() == 0,
    {
        Throttle { capacity, in_use: 0 }
    }

    /// The number of permits the pool was made with.
    pub fn permits(&self) -> (permits: usize)
        ensures
            permits == self.capacity(),
    {
        self.capacity
    }

    /// The number of permits that are taken and not yet given back.
    pub fn taken(&self) -> (taken: usize)
        ensures
            taken == self.in_use(),
    {
        self.in_use
    }

    /// Takes a permit if one is free, and tells whether it did.
    pub fn try_acquire(&mut self) -> (acquired: bool)
        requires
            old(self).wf(),
        ensures
            final(self).wf(),
            final(self).capacity() == old(self).capacity(),
            acquired == (old(self).in_use() < old(self).capacity()),
            final(self).in_use() == if acquired {
                old(self).in_use() + 1
            } else {
                old(self).in_use()
            },
    {
        if self.in_use < self.capacity {
            self.in_use = self.in_use + 1;
            true
        } else {
            false
        }
    }

    /// Gives one permit back if any is taken, and tells whether it did.
    pub fn release(&mut self) -> (released: bool)
        requires
            old(self).wf(),
        ensures
            final(self).wf(),
            final(self).capacity() == old(self).capacity(),
            released == (old(self).in_use() > 0),
            final(self).in_use() == if released {
                old(self).in_use() - 1
            } else {
                0
            },
    {
        if self.in_use > 0 {
            self.in_use = self.in_use - 1;
            true
        } else {
            false
        }
    }
}

} // verus!

//! The concurrency limiter: a counting permit pool.

use vstd::prelude::*;

verus! {

/// Bookkeeping for a pool of `capacity` permits, of which `in_flight`
/// are currently held.
///
/// The application's scheduler suspends a task whose acquisition is not
/// granted and retries once a permit frees up; this type is the arbiter
/// of when a grant is allowed.
#[derive(Debug, Clone, Copy)]
pub struct Limiter {
    /// The maximum number of simultaneous holders. At least 1.
    pub capacity: usize,
    /// How many permits are currently held.
    pub in_flight: usize,
}

impl Limiter {
    /// The pool never hands out more permits than its capacity.
    pub open spec fn wf(self) -> bool {
        &&& self.capacity >= 1
        &&& self.in_flight <= self.capacity
    }

    /// A fresh pool with every permit free.
    pub fn new(capacity: usize) -> (l: Self)
        requires
            capacity >= 1,
        ensures
            l.wf(),
            l.capacity == capacity,
            l.in_flight == 0,
    {
        Limiter { capacity, in_flight: 0 }
    }

    /// Grant a permit exactly when one is free; otherwise leave the pool
    /// unchanged (the caller waits and asks again).
    pub fn try_acquire(&mut self) -> (granted: bool)
        requires
            old(self).wf(),
        ensures
            final(self).wf(),
            final(self).capacity == old(self).capacity,
            granted <==> old(self).in_flight < old(self).capacity,
            granted ==> final(self).in_flight == old(self).in_flight + 1,
            !granted ==> *final(self) == *old(self),
    {
        if self.in_flight < self.capacity {
            self.in_flight = self.in_flight + 1;
            true
        } else {
            false
        }
    }

    /// Give a held permit back. Release is unconditional on the holder's
    /// side: it happens on success, exhausted failure and cancellation
    /// alike.
    pub fn release(&mut self)
        requires
            old(self).wf(),
            old(self).in_flight >= 1,
        ensures
            final(self).wf(),
            final(self).capacity == old(self).capacity,
            final(self).in_flight == old(self).in_flight - 1,
    {
        self.in_flight = self.in_flight - 1;
    }
}

} // verus!

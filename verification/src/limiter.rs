//! The admission gate bounding how many fetches are in flight at once.
//!
//! Every fetch task acquires a slot before its network request and releases
//! it afterward, success or failure, so a failed fetch cannot leak capacity.
//! The embedding binary supplies the waiting (a task that is refused a slot
//! parks until one frees); the counting discipline itself is verified here.

use vstd::prelude::*;

verus! {

/// The system-wide cap on concurrently in-flight fetch tasks.
pub const FETCH_CAP: usize = 100;

/// A counting admission gate: at most `cap` slots out at any moment.
pub struct Limiter {
    capacity: usize,
    in_flight: usize,
}

impl Limiter {
    /// The fixed number of slots.
    pub closed spec fn cap(self) -> int {
        self.capacity as int
    }

    /// How many slots are currently out.
    pub closed spec fn in_flight(self) -> int {
        self.in_flight as int
    }

    /// The limiter's invariant: never more slots out than the cap.
    pub open spec fn wf(self) -> bool {
        0 <= self.in_flight() <= self.cap()
    }

    /// A fresh limiter with `capacity` slots, none of them out.
    pub fn new(capacity: usize) -> (lim: Limiter)
        ensures
            lim.cap() == capacity,
            lim.in_flight() == 0,
            lim.wf(),
    {
        Limiter { capacity, in_flight: 0 }
    }

    /// A limiter with the system-wide fetch cap.
    pub fn with_fetch_cap() -> (lim: Limiter)
        ensures
            lim.cap() == FETCH_CAP as int,
            lim.in_flight() == 0,
            lim.wf(),
    {
        Limiter::new(FETCH_CAP)
    }

    /// Asks for a slot. The slot is granted exactly when one is free; a
    /// refused caller holds nothing and may ask again once a slot frees.
    pub fn try_acquire(&mut self) -> (granted: bool)
        requires
            old(self).wf(),
        ensures
            final(self).wf(),
            final(self).cap() == old(self).cap(),
            granted == (old(self).in_flight() < old(self).cap()),
            granted ==> final(self).in_flight() == old(self).in_flight() + 1,
            !granted ==> final(self).in_flight() == old(self).in_flight(),
    {
        if self.in_flight < self.capacity {
            self.in_flight = self.in_flight + 1;
            true
        } else {
            false
        }
    }

    /// How many slots are currently out, as executable code can read it.
    pub fn outstanding(&self) -> (n: usize)
        ensures
            n as int == self.in_flight(),
    {
        self.in_flight
    }

    /// Returns a slot. Called once per granted acquisition, after the fetch
    /// attempt completes, whatever its outcome.
    pub fn release(&mut self)
        requires
            old(self).wf(),
            old(self).in_flight() > 0,
        ensures
            final(self).wf(),
            final(self).cap() == old(self).cap(),
            final(self).in_flight() == old(self).in_flight() - 1,
    {
        self.in_flight = self.in_flight - 1;
    }
}

/// One request made of the limiter over its lifetime.
pub enum LimiterOp {
    Acquire,
    Release,
}

/// The number of slots out after a sequence of requests against a gate of
/// capacity `cap`: an acquisition is admitted only below the cap, a release
/// only while slots are out, as the `Limiter` methods behave.
pub open spec fn spec_outstanding(cap: int, ops: Seq<LimiterOp>) -> int
    decreases ops.len(),
{
    if ops.len() == 0 {
        0
    } else {
        let prev = spec_outstanding(cap, ops.drop_last());
        match ops.last() {
            LimiterOp::Acquire => if prev < cap {
                prev + 1
            } else {
                prev
            },
            LimiterOp::Release => if prev > 0 {
                prev - 1
            } else {
                prev
            },
        }
    }
}

/// However many acquisitions and releases the limiter sees, in whatever
/// order, the number of slots out never leaves `0..=cap`.
pub proof fn lemma_limiter_never_exceeds_cap(cap: int, ops: Seq<LimiterOp>)
    requires
        cap >= 0,
    ensures
        0 <= spec_outstanding(cap, ops) <= cap,
    decreases ops.len(),
{
    if ops.len() > 0 {
        lemma_limiter_never_exceeds_cap(cap, ops.drop_last());
    }
}

} // verus!

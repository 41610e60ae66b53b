//! Connection slots: a counted permit that caps how many connections may be
//! open at once.
use vstd::prelude::*;

verus! {

/// Counter of taken permits against a fixed capacity. A waiter suspends
/// until `available` holds, then reserves with `add`; `remove` releases and
/// wakes one waiter.
pub struct ConnectionSlots {
    pub capacity: usize,
    pub taken: usize,
}

/// The slot state after one permit is reserved.
pub open spec fn spec_add(s: ConnectionSlots) -> ConnectionSlots {
    ConnectionSlots { capacity: s.capacity, taken: (s.taken + 1) as usize }
}

/// The slot state after one permit is released.
pub open spec fn spec_remove(s: ConnectionSlots) -> ConnectionSlots {
    ConnectionSlots { capacity: s.capacity, taken: (s.taken - 1) as usize }
}

impl ConnectionSlots {
    /// Never more permits taken than the capacity allows.
    pub open spec fn wf(&self) -> bool {
        self.taken <= self.capacity
    }

    /// Builds a slot counter with nothing taken.
    pub fn new(capacity: usize) -> (r: ConnectionSlots)
        ensures
            r.wf(),
            r.capacity == capacity,
            r.taken == 0,
    {
        ConnectionSlots { capacity, taken: 0 }
    }

    /// Whether a permit is free, the condition a waiter suspends on.
    pub fn available(&self) -> (r: bool)
        ensures
            r == (self.taken < self.capacity),
    {
        self.taken < self.capacity
    }

    /// Reserves one permit; only called once a slot is available.
    pub fn add(&mut self)
        requires
            old(self).wf(),
            old(self).taken < old(self).capacity,
        ensures
            final(self).wf(),
            *final(self) == spec_add(*old(self)),
            final(self).taken == old(self).taken + 1,
    {
        self.taken = self.taken + 1;
    }

    /// Releases one permit, waking one waiter.
    pub fn remove(&mut self)
        requires
            old(self).wf(),
            old(self).taken > 0,
        ensures
            final(self).wf(),
            *final(self) == spec_remove(*old(self)),
            final(self).taken == old(self).taken - 1,
    {
        self.taken = self.taken - 1;
    }
}

/// A handler that reserved a permit and released it on exit leaves the
/// counter exactly where it stood: no leak, no double release.
pub proof fn lemma_slot_balance(s: ConnectionSlots)
    requires
        s.wf(),
        s.taken < s.capacity,
    ensures
        spec_remove(spec_add(s)) == s,
{
}

} // verus!

//! The dial side: bounded retries and the slot protocol of outbound
//! connections. The dialing itself is the embedder's.
use vstd::prelude::*;

use crate::endpoint::Endpoint;
use crate::monitor::ConnEvent;
use crate::slots::{spec_add, spec_remove, ConnectionSlots};

verus! {

/// Creates outbound connections: counts dial attempts and accounts for the
/// slot of each connection.
pub struct Connector {
    pub retries: u32,
    pub connection_slots: ConnectionSlots,
}

impl Connector {
    /// The slot counter is sound.
    pub open spec fn wf(&self) -> bool {
        self.connection_slots.wf()
    }

    /// Builds a connector over the given slot counter.
    pub fn new(retries: u32, connection_slots: ConnectionSlots) -> (r: Connector)
        requires
            connection_slots.wf(),
        ensures
            r.wf(),
            r.connection_slots == connection_slots,
            r.retries == retries,
    {
        Connector { retries, connection_slots }
    }

    /// Whether a failed attempt may be tried again.
    pub fn may_retry(&self, attempts_made: u32) -> (r: bool)
        ensures
            r == (attempts_made < self.retries),
    {
        attempts_made < self.retries
    }

    /// A dial is about to start while a slot was free: reserves its slot.
    pub fn on_dialing(&mut self)
        requires
            old(self).wf(),
            old(self).connection_slots.taken < old(self).connection_slots.capacity,
        ensures
            final(self).wf(),
            final(self).retries == old(self).retries,
            final(self).connection_slots == spec_add(old(self).connection_slots),
    {
        self.connection_slots.add();
    }

    /// The transport connected: names the event to publish.
    pub fn on_connected(&self, peer: Endpoint) -> (r: ConnEvent)
        ensures
            r == ConnEvent::Connected(peer),
    {
        ConnEvent::Connected(peer)
    }

    /// Every permitted attempt failed: releases the slot exactly once and
    /// names the event to publish.
    pub fn on_all_retries_failed(&mut self, peer: Endpoint) -> (r: ConnEvent)
        requires
            old(self).wf(),
            old(self).connection_slots.taken > 0,
        ensures
            final(self).wf(),
            final(self).retries == old(self).retries,
            final(self).connection_slots == spec_remove(old(self).connection_slots),
            final(self).connection_slots.taken == old(self).connection_slots.taken - 1,
            r == ConnEvent::ConnectFailed(peer),
    {
        self.connection_slots.remove();
        ConnEvent::ConnectFailed(peer)
    }

    /// An open outbound exchange ended: releases its slot exactly once and
    /// names the event to publish.
    pub fn on_disconnected(&mut self, peer: Endpoint) -> (r: ConnEvent)
        requires
            old(self).wf(),
            old(self).connection_slots.taken > 0,
        ensures
            final(self).wf(),
            final(self).retries == old(self).retries,
            final(self).connection_slots == spec_remove(old(self).connection_slots),
            final(self).connection_slots.taken == old(self).connection_slots.taken - 1,
            r == ConnEvent::Disconnected(peer),
    {
        self.connection_slots.remove();
        ConnEvent::Disconnected(peer)
    }
}

} // verus!

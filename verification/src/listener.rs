//! The accept side: endpoint admission and the slot protocol of the accept
//! loop. Binding, accepting and task spawning are the embedder's; every
//! decision in between is here.
use vstd::prelude::*;

use crate::endpoint::Endpoint;
use crate::monitor::ConnEvent;
use crate::slots::{spec_add, spec_remove, ConnectionSlots};
use crate::Error;

verus! {

/// Creates inbound connections: admits endpoints and accounts for the slot
/// of each accepted connection.
pub struct Listener {
    pub enable_tls: bool,
    pub connection_slots: ConnectionSlots,
}

impl Listener {
    /// The slot counter is sound.
    pub open spec fn wf(&self) -> bool {
        self.connection_slots.wf()
    }

    /// Builds a listener over the given slot counter.
    pub fn new(connection_slots: ConnectionSlots, enable_tls: bool) -> (r: Listener)
        requires
            connection_slots.wf(),
        ensures
            r.wf(),
            r.connection_slots == connection_slots,
            r.enable_tls == enable_tls,
    {
        Listener { enable_tls, connection_slots }
    }

    /// Admission rule of `start`: with TLS on, the endpoint must be TCP or
    /// TLS; with TLS off, plain TCP only.
    pub fn check_endpoint(&self, endpoint: &Endpoint) -> (r: Result<(), Error>)
        ensures
            (r is Ok) == (if self.enable_tls {
                endpoint.spec_is_tcp() || endpoint.spec_is_tls()
            } else {
                endpoint.spec_is_tcp()
            }),
            r is Err ==> (r matches Err(Error::UnsupportedEndpoint)),
    {
        if self.enable_tls {
            if !endpoint.is_tcp() && !endpoint.is_tls() {
                return Err(Error::UnsupportedEndpoint);
            }
        } else {
            if !endpoint.is_tcp() {
                return Err(Error::UnsupportedEndpoint);
            }
        }
        Ok(())
    }

    /// One connection was accepted while a slot was free: reserves its slot
    /// and names the event to publish.
    pub fn on_accepted(&mut self, peer: Endpoint) -> (r: ConnEvent)
        requires
            old(self).wf(),
            old(self).connection_slots.taken < old(self).connection_slots.capacity,
        ensures
            final(self).wf(),
            final(self).enable_tls == old(self).enable_tls,
            final(self).connection_slots == spec_add(old(self).connection_slots),
            final(self).connection_slots.taken == old(self).connection_slots.taken + 1,
            r == ConnEvent::Accepted(peer),
    {
        self.connection_slots.add();
        ConnEvent::Accepted(peer)
    }

    /// An accept attempt failed: the loop goes on, nothing is reserved.
    pub fn on_accept_failed(&mut self) -> (r: ConnEvent)
        requires
            old(self).wf(),
        ensures
            *final(self) == *old(self),
            r == ConnEvent::AcceptFailed,
    {
        ConnEvent::AcceptFailed
    }

    /// A per-connection handler finished, however it ended: releases its
    /// slot exactly once and names the event to publish.
    pub fn on_handler_exit(&mut self, peer: Endpoint) -> (r: ConnEvent)
        requires
            old(self).wf(),
            old(self).connection_slots.taken > 0,
        ensures
            final(self).wf(),
            final(self).enable_tls == old(self).enable_tls,
            final(self).connection_slots == spec_remove(old(self).connection_slots),
            final(self).connection_slots.taken == old(self).connection_slots.taken - 1,
            r == ConnEvent::Disconnected(peer),
    {
        self.connection_slots.remove();
        ConnEvent::Disconnected(peer)
    }
}

/// Accepting a connection and seeing its handler exit leaves the slot
/// counter exactly as it stood.
pub proof fn lemma_accept_exit_balanced(l: Listener)
    requires
        l.wf(),
        l.connection_slots.taken < l.connection_slots.capacity,
    ensures
        spec_remove(spec_add(l.connection_slots)) == l.connection_slots,
{
    crate::slots::lemma_slot_balance(l.connection_slots);
}

} // verus!

//! The event taxonomy published to a monitoring sink by the listener, the
//! connector, and the lookup service.
use vstd::prelude::*;

use crate::endpoint::Endpoint;

verus! {

/// Connection-level events.
#[derive(Debug, Clone, PartialEq, Eq)]
pub enum ConnEvent {
    Listening(Endpoint),
    ListenFailed(Endpoint),
    Accepted(Endpoint),
    AcceptFailed,
    Connected(Endpoint),
    ConnectFailed(Endpoint),
    Disconnected(Endpoint),
}

/// Peer-discovery events.
#[derive(Debug, Clone, PartialEq, Eq)]
pub enum DiscoveryEvent {
    LookupStarted(Endpoint),
    LookupFailed(Endpoint),
    LookupSucceeded(Endpoint, usize),
}

} // verus!

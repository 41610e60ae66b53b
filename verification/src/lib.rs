//! Core of a peer-to-peer discovery toolkit and a JSON-RPC client that share
//! one connection model: XOR-distance routing, a framed wire protocol, request
//! dispatching, subscription fan-in, and connection-slot accounting.
pub mod client;
pub mod codec;
pub mod connector;
pub mod dispatcher;
pub mod endpoint;
pub mod listener;
pub mod lookup;
pub mod message;
pub mod monitor;
pub mod peer;
pub mod routing_table;
pub mod rpc_message;
pub mod slots;
pub mod subscriber;
pub mod version;

use vstd::prelude::*;

verus! {

/// Failure kinds surfaced by the library to its callers.
#[derive(Debug, Clone, PartialEq, Eq)]
pub enum Error {
    Io,
    Encoding,
    Decoding,
    Timeout,
    UnsupportedEndpoint,
    IncompatibleVersion,
    InvalidMsg(&'static str),
    InvalidPongMsg,
    Lookup(&'static str),
    CallError(i32, String),
    ChannelClosed,
}

} // verus!

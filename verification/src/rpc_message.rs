//! JSON-RPC messages as the client reasons about them: correlation ids,
//! methods, and error records are plain values; params and results are
//! opaque JSON values carried through.
use vstd::prelude::*;

verus! {

/// The JSON value type of serde_json, carried through the client opaquely.
#[verifier::external_type_specification]
#[verifier::external_body]
pub struct ExValue(serde_json::Value);

/// What `Value::as_u64` reads out of a JSON value: the unsigned integer it
/// is, if it is one. A function of the value alone.
pub uninterp spec fn spec_as_u64(v: serde_json::Value) -> Option<u64>;

/// Relies on serde_json's `Value::as_u64`: reads the value as an unsigned
/// integer if it is one; the verdict is the value's alone.
pub assume_specification[ serde_json::Value::as_u64 ](v: &serde_json::Value) -> (r: Option<u64>)
    ensures
        r == spec_as_u64(*v),
;

/// An outbound request. The wire form adds the fixed `jsonrpc: "2.0"` tag.
pub struct Request {
    pub id: u32,
    pub method: String,
    pub params: Option<serde_json::Value>,
}

/// The error record of a failed response.
pub struct RpcError {
    pub code: i32,
    pub message: String,
}

/// An inbound response.
pub struct Response {
    pub id: Option<u32>,
    pub result: Option<serde_json::Value>,
    pub error: Option<RpcError>,
}

/// An inbound subscription notification: which subscription, and what it
/// carries.
pub struct Notification {
    pub method: String,
    pub subscription: u32,
    pub result: serde_json::Value,
}

} // verus!

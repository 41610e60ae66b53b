//! Network endpoints: an address (as its textual bytes) plus a port, tagged
//! by transport.
use vstd::prelude::*;

verus! {

/// A dialable or listenable address.
#[derive(Debug, Clone, PartialEq, Eq)]
pub enum Endpoint {
    Tcp(Vec<u8>, u16),
    Tls(Vec<u8>, u16),
    Udp(Vec<u8>, u16),
}

impl Endpoint {
    /// Whether this is a plain TCP endpoint.
    pub open spec fn spec_is_tcp(&self) -> bool {
        self is Tcp
    }

    /// Whether this is a TLS endpoint.
    pub open spec fn spec_is_tls(&self) -> bool {
        self is Tls
    }

    /// The address bytes.
    pub open spec fn spec_addr(&self) -> Seq<u8> {
        match self {
            Endpoint::Tcp(a, _) => a@,
            Endpoint::Tls(a, _) => a@,
            Endpoint::Udp(a, _) => a@,
        }
    }

    /// The port.
    pub open spec fn spec_port(&self) -> u16 {
        match self {
            Endpoint::Tcp(_, p) => *p,
            Endpoint::Tls(_, p) => *p,
            Endpoint::Udp(_, p) => *p,
        }
    }

    /// Tells a plain TCP endpoint apart.
    pub fn is_tcp(&self) -> (r: bool)
        ensures
            r == self.spec_is_tcp(),
    {
        match self {
            Endpoint::Tcp(_, _) => true,
            _ => false,
        }
    }

    /// Tells a TLS endpoint apart.
    pub fn is_tls(&self) -> (r: bool)
        ensures
            r == self.spec_is_tls(),
    {
        match self {
            Endpoint::Tls(_, _) => true,
            _ => false,
        }
    }

    /// The address bytes.
    pub fn addr(&self) -> (r: &Vec<u8>)
        ensures
            r@ == self.spec_addr(),
    {
        match self {
            Endpoint::Tcp(a, _) => a,
            Endpoint::Tls(a, _) => a,
            Endpoint::Udp(a, _) => a,
        }
    }

    /// The port.
    pub fn port(&self) -> (r: u16)
        ensures
            r == self.spec_port(),
    {
        match self {
            Endpoint::Tcp(_, p) => *p,
            Endpoint::Tls(_, p) => *p,
            Endpoint::Udp(_, p) => *p,
        }
    }
}

/// Two endpoints name the same place: same transport, same address bytes,
/// same port.
pub open spec fn ep_eq(a: Endpoint, b: Endpoint) -> bool {
    &&& (a is Tcp <==> b is Tcp)
    &&& (a is Tls <==> b is Tls)
    &&& (a is Udp <==> b is Udp)
    &&& a.spec_addr() == b.spec_addr()
    &&& a.spec_port() == b.spec_port()
}

/// Copies an endpoint, byte for byte.
pub fn clone_endpoint(e: &Endpoint) -> (r: Endpoint)
    ensures
        ep_eq(r, *e),
{
    match e {
        Endpoint::Tcp(a, p) => {
            let addr = crate::codec::copy_range(a, 0, a.len());
            assert(addr@ =~= a@);
            Endpoint::Tcp(addr, *p)
        },
        Endpoint::Tls(a, p) => {
            let addr = crate::codec::copy_range(a, 0, a.len());
            assert(addr@ =~= a@);
            Endpoint::Tls(addr, *p)
        },
        Endpoint::Udp(a, p) => {
            let addr = crate::codec::copy_range(a, 0, a.len());
            assert(addr@ =~= a@);
            Endpoint::Udp(addr, *p)
        },
    }
}

} // verus!

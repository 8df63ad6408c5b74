//! A plain-value model of a remote socket address.
//!
//! The layer only stores and compares addresses; it never parses or routes
//! them. An IPv4 address is held as its 32-bit big-endian integer, an IPv6
//! address as two 64-bit halves, each together with a port number.

use vstd::prelude::*;

verus! {

/// An internet socket address: an IP address together with a port.
#[derive(Debug, Clone, Copy, PartialEq, Eq, Structural)]
pub enum SocketAddr {
    /// An IPv4 endpoint: the address octets packed big-endian into `ip`.
    V4 { ip: u32, port: u16 },
    /// An IPv6 endpoint: the sixteen address octets packed big-endian into
    /// `hi` (first eight) and `lo` (last eight).
    V6 { hi: u64, lo: u64, port: u16 },
}

impl SocketAddr {
    /// The port of the endpoint, for either address family.
    pub fn port(&self) -> (r: u16)
        ensures
            r == self.spec_port(),
    {
        match self {
            SocketAddr::V4 { port, .. } => *port,
            SocketAddr::V6 { port, .. } => *port,
        }
    }

    /// The port of the endpoint.
    pub open spec fn spec_port(self) -> u16 {
        match self {
            SocketAddr::V4 { port, .. } => port,
            SocketAddr::V6 { port, .. } => port,
        }
    }
}

} // verus!

//! Peer addresses of the two transports.

use vstd::prelude::*;

verus! {

/// An IPv4 endpoint: the address as a big-endian 32-bit number, and the port.
#[derive(Clone, Copy, Debug, PartialEq, Eq, Structural)]
pub struct PeerAddr {
    pub ip: u32,
    pub port: u16,
}

/// The address family of a peer as the transport reports it.
#[derive(Clone, Copy, Debug, PartialEq, Eq, Structural)]
pub enum SocketPeer {
    V4(PeerAddr),
    V6,
}

/// The number under which an endpoint is filed in the active table.
pub open spec fn peer_key(peer: PeerAddr) -> u64 {
    (peer.ip as u64 * 65536 + peer.port as u64) as u64
}

impl PeerAddr {
    pub fn new(ip: u32, port: u16) -> (peer: PeerAddr)
        ensures
            peer == (PeerAddr { ip, port }),
    {
        PeerAddr { ip, port }
    }

    /// The table key of this endpoint.
    pub fn key(&self) -> (k: u64)
        ensures
            k == peer_key(*self),
    {
        let ip: u64 = self.ip as u64;
        let port: u64 = self.port as u64;
        ip * 65536 + port
    }
}

/// Distinct endpoints have distinct table keys.
pub proof fn peer_key_injective(a: PeerAddr, b: PeerAddr)
    requires
        peer_key(a) == peer_key(b),
    ensures
        a == b,
{
}

} // verus!

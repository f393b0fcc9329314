//! The network address of a peer, in plain numbers.

use vstd::prelude::*;

verus! {

/// The address and port of a remote socket. Two addresses are the same exactly
/// when all of their parts are.
#[derive(Debug, PartialEq, Eq, Structural, Clone, Copy)]
pub enum PeerAddr {
    V4 { ip: u32, port: u16 },
    V6 { ip6: u128, port: u16, flowinfo: u32, scope_id: u32 },
}

/// An address as a tuple of integers: family, address, port, flow and scope.
pub type AddrKey = (u8, u128, u16, u32, u32);

/// The key of an address.
pub open spec fn key_of(addr: PeerAddr) -> AddrKey {
    match addr {
        PeerAddr::V4 { ip, port } => (4, ip as u128, port, 0, 0),
        PeerAddr::V6 { ip6, port, flowinfo, scope_id } => (6, ip6, port, flowinfo, scope_id),
    }
}

impl PeerAddr {
    /// The address as a tuple of integers, which orders and compares by its parts.
    pub fn key(self) -> (key: AddrKey)
        ensures
            key == key_of(self),
    {
        match self {
            PeerAddr::V4 { ip, port } => (4, ip as u128, port, 0, 0),
            PeerAddr::V6 { ip6, port, flowinfo, scope_id } => (6, ip6, port, flowinfo, scope_id),
        }
    }
}

/// Different addresses have different keys.
pub proof fn key_is_injective(a: PeerAddr, b: PeerAddr)
    ensures
        key_of(a) == key_of(b) <==> a == b,
{
}

} // verus!

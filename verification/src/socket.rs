//! The protocol state of one socket.

pub mod receive;
pub mod send;

pub use crate::packet::HEADER_SIZE;
pub use crate::peer::{INITIAL_RTO_MS, MAX_RTO_MS, MIN_RTO_MS};
pub use crate::socket::receive::{DueAck, RecvEvent, RecvState};
pub use crate::socket::send::{ErrorKind, SendAction, SendError, SendEvent, Transmission};
pub use crate::stats::SocketStats;

use crate::addr::PeerAddr;
use crate::peer::{PeerState, PeerView};
use crate::stats::StatsView;
use crate::table::AddrTable;
use std::time::Instant;
use vstd::prelude::*;

verus! {

/// Largest datagram put on the wire or read off it.
pub const MAX_PACKET_SIZE: usize = 2048;

/// Largest application payload that fits in a single packet.
pub const MAX_PAYLOAD_SIZE: usize = MAX_PACKET_SIZE - HEADER_SIZE;

/// How many times a single packet is put on the wire before the send gives up:
/// one original transmission plus nine retransmissions.
pub const DEFAULT_MAX_TRANSMISSION_ATTEMPTS: u32 = 10;

/// Why the network did not yield a datagram.
#[derive(Debug, PartialEq, Eq, Structural, Clone, Copy)]
pub enum FailureKind {
    /// Nothing arrived, and the call would have had to wait.
    WouldBlock,
    /// Nothing arrived within the read timeout.
    TimedOut,
    /// Anything else.
    Other,
}

impl FailureKind {
    /// Nothing is wrong with the socket; there was only nothing to read.
    pub open spec fn spec_is_timeout(self) -> bool {
        self is WouldBlock || self is TimedOut
    }

    /// Whether the failure only says that nothing arrived in time.
    pub fn is_timeout(self) -> (timeout: bool)
        ensures
            timeout == self.spec_is_timeout(),
    {
        match self {
            FailureKind::WouldBlock => true,
            FailureKind::TimedOut => true,
            FailureKind::Other => false,
        }
    }
}

/// What a socket knows.
#[verifier::ext_equal]
pub struct SocketView {
    /// Per-remote-address state.
    pub peers: Map<PeerAddr, PeerView>,
    /// How many times one packet is transmitted before a send gives up.
    pub max_attempts: nat,
    /// The counters.
    pub stats: StatsView,
}

impl SocketView {
    /// The record of an address, or that of a peer not heard of.
    pub open spec fn peer(self, addr: PeerAddr) -> PeerView {
        if self.peers.contains_key(addr) {
            self.peers[addr]
        } else {
            PeerView::fresh()
        }
    }

    /// The socket with the record of one address set.
    pub open spec fn with_peer(self, addr: PeerAddr, peer: PeerView) -> SocketView {
        SocketView { peers: self.peers.insert(addr, peer), ..self }
    }

    /// The socket with another attempt limit. A packet is always transmitted at
    /// least once, so zero counts as one.
    pub open spec fn with_limit(self, attempts: nat) -> SocketView {
        SocketView {
            max_attempts: if attempts == 0 {
                1
            } else {
                attempts
            },
            ..self
        }
    }

    /// What a socket can know: at least one attempt is allowed, the counters fit
    /// in the machine, and every peer's record is one that a peer can have.
    pub open spec fn valid(self) -> bool {
        &&& 1 <= self.max_attempts <= u32::MAX
        &&& self.stats.in_range()
        &&& forall|addr: PeerAddr| (#[trigger] self.peer(addr)).valid()
    }

    /// The socket just opened.
    pub open spec fn is_fresh(self) -> bool {
        &&& self.peers == Map::<PeerAddr, PeerView>::empty()
        &&& self.max_attempts == DEFAULT_MAX_TRANSMISSION_ATTEMPTS
        &&& self.stats.is_fresh()
    }
}

pub struct RUdpSocket {
    /// Per-remote-address protocol state. Keyed by peer address so that several
    /// peers can talk to this socket without corrupting each other's streams.
    peers: AddrTable<PeerState>,
    max_transmission_attempts: u32,
    pub stats: SocketStats,
}

impl View for RUdpSocket {
    type V = SocketView;

    closed spec fn view(&self) -> SocketView {
        SocketView {
            peers: self.peers@,
            max_attempts: self.max_transmission_attempts as nat,
            stats: self.stats@,
        }
    }
}

impl RUdpSocket {
    /// The state of a socket that is opened at what the clock says at the time of
    /// the call: no peers, the default attempt limit, nothing counted.
    pub fn new() -> (socket: Self)
        ensures
            socket@.is_fresh(),
            socket@.valid(),
            call_ensures(Instant::now, (), socket@.stats.started),
    {
        RUdpSocket {
            peers: AddrTable::new(),
            max_transmission_attempts: DEFAULT_MAX_TRANSMISSION_ATTEMPTS,
            stats: SocketStats::default(),
        }
    }

    /// Sets how many times one packet is transmitted before a send gives up. A
    /// packet is always transmitted at least once, so zero counts as one.
    pub fn set_max_transmission_attempts(&mut self, attempts: u32)
        ensures
            final(self)@ == old(self)@.with_limit(attempts as nat),
            attempts >= 1 ==> final(self)@.max_attempts == attempts,
            attempts == 0 ==> final(self)@.max_attempts == 1,
            final(self)@.peers == old(self)@.peers,
            final(self)@.stats == old(self)@.stats,
    {
        self.max_transmission_attempts = if attempts < 1 {
            1
        } else {
            attempts
        };
    }

    /// The current retransmission timeout for a peer in milliseconds, if the
    /// peer has been talked to. It never leaves the band.
    pub fn rto_for(&self, peer: PeerAddr) -> (rto_ms: Option<u64>)
        ensures
            rto_ms is Some <==> self@.peers.contains_key(peer),
            rto_ms matches Some(ms) ==> ms == self@.peers[peer].rto_ms
                && MIN_RTO_MS <= ms <= MAX_RTO_MS,
    {
        match self.peers.get(peer) {
            Some(state) => Some(state.rto_ms()),
            None => None,
        }
    }

    /// The record of an address, or that of a peer not heard of.
    fn peer(&self, addr: PeerAddr) -> (peer: PeerState)
        ensures
            peer@ == self@.peer(addr),
    {
        match self.peers.get(addr) {
            Some(peer) => peer,
            None => PeerState::default(),
        }
    }

    /// What a socket is seen to know is what its fields hold, the public counters
    /// among them.
    proof fn a_socket_knows_what_its_fields_hold(&self)
        ensures
            self@.peers == self.peers@,
            self@.max_attempts == self.max_transmission_attempts,
            self@.stats == self.stats@,
    {
    }

    /// The counters.
    pub fn stats(&self) -> (stats: &SocketStats)
        ensures
            stats@ == self@.stats,
    {
        &self.stats
    }
}

} // verus!

//! Sending one payload: transmit, wait for the matching acknowledgement, and
//! transmit again until it comes or the attempts are used up.

use crate::addr::PeerAddr;
use crate::packet::{data_packet, decode, encode, Packet, PacketType, HEADER_SIZE};
use crate::peer::{RttEstimate, MAX_RTO_MS, MIN_RTO_MS};
use crate::socket::{FailureKind, RUdpSocket, SocketView, MAX_PACKET_SIZE, MAX_PAYLOAD_SIZE};
use vstd::prelude::*;
use vstd::slice::slice_to_vec;

verus! {

/// Nanoseconds in a millisecond.
pub const NANOS_PER_MILLI: u64 = 1_000_000;

/// The class that a failed send belongs to.
#[derive(Debug, PartialEq, Eq, Structural, Clone, Copy)]
pub enum ErrorKind {
    InvalidInput,
    TimedOut,
}

/// Why a send failed, apart from failures of the network socket itself.
#[derive(Debug, PartialEq, Eq, Structural, Clone, Copy)]
pub enum SendError {
    /// The target's name stands for no address.
    Unresolved,
    /// The payload cannot fit in a single packet.
    PayloadTooLarge { len: usize },
    /// The peer never acknowledged the packet.
    TimedOut { peer: PeerAddr, seq_num: u32, attempts: u32 },
}

impl SendError {
    /// The class of the failure.
    pub fn kind(&self) -> (kind: ErrorKind)
        ensures
            kind == (if *self is TimedOut {
                ErrorKind::TimedOut
            } else {
                ErrorKind::InvalidInput
            }),
    {
        match self {
            SendError::Unresolved => ErrorKind::InvalidInput,
            SendError::PayloadTooLarge { .. } => ErrorKind::InvalidInput,
            SendError::TimedOut { .. } => ErrorKind::TimedOut,
        }
    }
}

/// What a send asks its caller to do next.
#[derive(Debug, PartialEq, Eq, Clone, Copy)]
pub enum SendAction {
    /// Put the datagram on the wire; report `Sent`, or `SocketFailed`.
    Transmit,
    /// Read the clock; report `Clock`.
    ReadClock,
    /// Set the read timeout, which is never zero, and read one datagram; report
    /// `Received`, `ReceiveFailed`, or `SocketFailed` if the timeout could not
    /// be set.
    Listen { timeout_ns: u64 },
    /// Fold a round-trip measurement into the estimate so far, if there is one;
    /// report `Estimated`.
    Smooth { rtt_ns: u64, previous: Option<RttEstimate> },
    /// The peer has acknowledged the payload.
    Done,
    /// The send has failed.
    Failed { error: SendError },
    /// The send ends with the failure that was just reported.
    Abort,
}

/// What happened. Times are readings of one clock that never goes back, in
/// nanoseconds.
pub enum SendEvent {
    /// The datagram was put on the wire.
    Sent { now_ns: u64 },
    /// The clock was read.
    Clock { now_ns: u64 },
    /// A datagram came in.
    Received { src: PeerAddr, datagram: Vec<u8>, now_ns: u64 },
    /// No datagram came in.
    ReceiveFailed { kind: FailureKind },
    /// The socket could not be written to or set up.
    SocketFailed,
    /// The new round-trip estimate, and its smoothed time plus four times its
    /// variation in whole milliseconds.
    Estimated { estimate: RttEstimate, timeout_ms: u64 },
}

/// How far a send has come.
#[verifier::ext_equal]
pub struct TransmissionView {
    /// Where the payload goes.
    pub target: PeerAddr,
    /// The sequence number it goes under.
    pub seq_num: nat,
    /// The datagram, the same in every attempt.
    pub data: Seq<u8>,
    /// How many times the datagram has been put on the wire.
    pub attempts: nat,
    /// How long this attempt waits for the acknowledgement.
    pub rto_ms: nat,
    /// When the send began.
    pub started_ns: nat,
    /// When the wait of this attempt began.
    pub waiting_since_ns: nat,
    /// What is to be done next.
    pub pending: SendAction,
}

/// The time from one reading to another; none if the second is not later.
pub open spec fn time_between(earlier: nat, later: nat) -> nat {
    if later > earlier {
        (later - earlier) as nat
    } else {
        0
    }
}

impl TransmissionView {
    /// The same send with another thing to do next.
    pub open spec fn asks(self, pending: SendAction) -> TransmissionView {
        TransmissionView { pending, ..self }
    }

    /// The send is over.
    pub open spec fn is_over(self) -> bool {
        self.pending is Done || self.pending is Failed || self.pending is Abort
    }

    /// A datagram that acknowledges this send: it comes from the address that
    /// the payload went to and acknowledges its sequence number.
    pub open spec fn is_acked_by(self, src: PeerAddr, datagram: Seq<u8>) -> bool {
        &&& src == self.target
        &&& decode(datagram) matches Some(p)
        &&& p.p_type == PacketType::Ack
        &&& p.seq_num == self.seq_num
    }
}

/// The send that a payload begins: the next sequence number of the target, the
/// timeout in force for it, and nothing on the wire yet.
pub open spec fn new_transmission(
    socket: SocketView,
    payload: Seq<u8>,
    target: PeerAddr,
    now_ns: nat,
) -> TransmissionView {
    let peer = socket.peer(target);
    TransmissionView {
        target,
        seq_num: peer.next_seq_num,
        data: encode(data_packet(peer.next_seq_num, payload)),
        attempts: 0,
        rto_ms: peer.rto_ms,
        started_ns: now_ns,
        waiting_since_ns: now_ns,
        pending: SendAction::Transmit,
    }
}

/// After the wait of an attempt has run out: the send gives up if the attempts
/// are used up; otherwise the timeout is backed off and the datagram goes out
/// again. The sequence number stays.
pub open spec fn after_timeout(socket: SocketView, tx: TransmissionView) -> (
    SocketView,
    TransmissionView,
) {
    if tx.attempts >= socket.max_attempts {
        let error = SendError::TimedOut {
            peer: tx.target,
            seq_num: tx.seq_num as u32,
            attempts: tx.attempts as u32,
        };
        (socket, tx.asks(SendAction::Failed { error }))
    } else {
        let peer = socket.peer(tx.target).backed_off();
        (
            socket.with_peer(tx.target, peer),
            TransmissionView { rto_ms: peer.rto_ms, pending: SendAction::Transmit, ..tx },
        )
    }
}

/// After the acknowledgement: the target moves on from the sequence number that
/// was acknowledged to the next one. It moves on from each number only once.
pub open spec fn after_ack(socket: SocketView, tx: TransmissionView) -> (
    SocketView,
    TransmissionView,
) {
    (
        socket.with_peer(tx.target, socket.peer(tx.target).acknowledged_under(tx.seq_num)),
        tx.asks(SendAction::Done),
    )
}

/// The socket and the send after an event. An event that does not answer what
/// is pending changes nothing.
pub open spec fn send_next(socket: SocketView, tx: TransmissionView, event: SendEvent) -> (
    SocketView,
    TransmissionView,
) {
    match (tx.pending, event) {
        (SendAction::Transmit, SendEvent::Sent { now_ns }) => (
            SocketView {
                stats: socket.stats.after_transmission(tx.data.len(), tx.attempts + 1),
                ..socket
            },
            TransmissionView {
                attempts: tx.attempts + 1,
                waiting_since_ns: now_ns as nat,
                pending: SendAction::ReadClock,
                ..tx
            },
        ),
        (SendAction::Transmit, SendEvent::SocketFailed) => (socket, tx.asks(SendAction::Abort)),
        (SendAction::ReadClock, SendEvent::Clock { now_ns }) => {
            let waited = time_between(tx.waiting_since_ns, now_ns as nat);
            let rto_ns = tx.rto_ms * (NANOS_PER_MILLI as nat);
            if waited < rto_ns {
                (socket, tx.asks(SendAction::Listen { timeout_ns: (rto_ns - waited) as u64 }))
            } else {
                after_timeout(socket, tx)
            }
        },
        (SendAction::Listen { .. }, SendEvent::Received { src, datagram, now_ns }) => {
            if !tx.is_acked_by(src, datagram@) {
                (socket, tx.asks(SendAction::ReadClock))
            } else if tx.attempts == 1 {
                (
                    socket,
                    tx.asks(
                        SendAction::Smooth {
                            rtt_ns: time_between(tx.started_ns, now_ns as nat) as u64,
                            previous: socket.peer(tx.target).estimate.measured(),
                        },
                    ),
                )
            } else {
                after_ack(socket, tx)
            }
        },
        (SendAction::Listen { .. }, SendEvent::ReceiveFailed { kind }) => {
            if kind.spec_is_timeout() {
                after_timeout(socket, tx)
            } else {
                (socket, tx.asks(SendAction::Abort))
            }
        },
        (SendAction::Listen { .. }, SendEvent::SocketFailed) => (
            socket,
            tx.asks(SendAction::Abort),
        ),
        (SendAction::Smooth { .. }, SendEvent::Estimated { estimate, timeout_ms }) => {
            let peer = socket.peer(tx.target).estimated(estimate, timeout_ms as nat);
            after_ack(socket.with_peer(tx.target, peer), tx)
        },
        _ => (socket, tx),
    }
}

/// What the event leads to fits in the machine's counters and sequence numbers.
pub open spec fn send_fits(socket: SocketView, tx: TransmissionView, event: SendEvent) -> bool {
    let next = send_next(socket, tx, event).0;
    &&& next.stats.in_range()
    &&& next.peer(tx.target).next_seq_num <= u32::MAX
}

/// A send in progress.
pub struct Transmission {
    target: PeerAddr,
    seq_num: u32,
    data: Vec<u8>,
    attempts: u32,
    rto_ms: u64,
    started_ns: u64,
    waiting_since_ns: u64,
    pending: SendAction,
}

impl View for Transmission {
    type V = TransmissionView;

    closed spec fn view(&self) -> TransmissionView {
        TransmissionView {
            target: self.target,
            seq_num: self.seq_num as nat,
            data: self.data@,
            attempts: self.attempts as nat,
            rto_ms: self.rto_ms as nat,
            started_ns: self.started_ns as nat,
            waiting_since_ns: self.waiting_since_ns as nat,
            pending: self.pending,
        }
    }
}

impl Transmission {
    #[verifier::type_invariant]
    spec fn well_formed(self) -> bool {
        &&& MIN_RTO_MS <= self.rto_ms <= MAX_RTO_MS
        &&& self.pending is Transmit ==> self.attempts < u32::MAX
        &&& HEADER_SIZE <= self.data@.len() <= MAX_PACKET_SIZE
    }

    /// Where the payload goes.
    pub fn target(&self) -> (target: PeerAddr)
        ensures
            target == self@.target,
    {
        self.target
    }

    /// The datagram that carries the payload. It fits in one packet.
    pub fn data(&self) -> (data: &Vec<u8>)
        ensures
            data@ == self@.data,
            HEADER_SIZE <= data@.len() <= MAX_PACKET_SIZE,
    {
        proof {
            use_type_invariant(self);
        }
        &self.data
    }

    /// What is to be done next.
    pub fn pending(&self) -> (pending: SendAction)
        ensures
            pending == self@.pending,
    {
        self.pending
    }

    /// Whether a datagram acknowledges this send.
    fn is_acked_by(&self, src: PeerAddr, datagram: &Vec<u8>) -> (acked: bool)
        ensures
            acked == self@.is_acked_by(src, datagram@),
    {
        // Only the peer the payload went to can acknowledge it.
        if src != self.target {
            return false;
        }
        match Packet::from_bytes(datagram) {
            Some(packet) => packet.p_type == PacketType::Ack && packet.seq_num == self.seq_num,
            None => false,
        }
    }
}

impl RUdpSocket {
    /// Begins to send one payload to the first of the addresses that the target
    /// stands for. One send per address is open at a time.
    pub fn send_reliable(&mut self, payload: &[u8], resolved: &[PeerAddr], now_ns: u64) -> (res:
        Result<Transmission, SendError>)
        ensures
            res is Err <==> resolved@.len() == 0 || payload@.len() > MAX_PAYLOAD_SIZE,
            res matches Err(e) ==> final(self)@ == old(self)@ && e == (if resolved@.len() == 0 {
                SendError::Unresolved
            } else {
                SendError::PayloadTooLarge { len: payload@.len() as usize }
            }),
            res matches Ok(tx) ==> {
                &&& tx@ == new_transmission(old(self)@, payload@, resolved@[0], now_ns as nat)
                &&& final(self)@ == old(self)@.with_peer(
                    resolved@[0],
                    old(self)@.peer(resolved@[0]),
                )
            },
    {
        if resolved.len() == 0 {
            return Err(SendError::Unresolved);
        }
        self.send_reliable_to(payload, resolved[0], now_ns)
    }

    /// Begins to send one payload to an address. The payload is refused if it
    /// cannot fit in a single packet; then nothing changes. Otherwise the
    /// address gets a record if it has none. One send per address is open at a
    /// time: two open sends to one address would go under the same number, and
    /// one acknowledgement would end both.
    pub fn send_reliable_to(&mut self, payload: &[u8], target: PeerAddr, now_ns: u64) -> (res:
        Result<Transmission, SendError>)
        ensures
            res is Err <==> payload@.len() > MAX_PAYLOAD_SIZE,
            res matches Err(e) ==> final(self)@ == old(self)@ && e == (SendError::PayloadTooLarge {
                len: payload@.len() as usize,
            }),
            res matches Ok(tx) ==> {
                &&& tx@ == new_transmission(old(self)@, payload@, target, now_ns as nat)
                &&& final(self)@ == old(self)@.with_peer(target, old(self)@.peer(target))
            },
    {
        if payload.len() > MAX_PAYLOAD_SIZE {
            return Err(SendError::PayloadTooLarge { len: payload.len() });
        }
        let peer = self.peer(target);
        self.peers.set(target, peer);
        let seq_num: u32 = peer.next_seq_num();
        let packet = Packet { seq_num, p_type: PacketType::Data, payload: slice_to_vec(payload) };
        let data = packet.to_bytes();
        assert(packet@ == data_packet(seq_num as nat, payload@));
        Ok(
            Transmission {
                target,
                seq_num,
                data,
                attempts: 0,
                rto_ms: peer.rto_ms(),
                started_ns: now_ns,
                waiting_since_ns: now_ns,
                pending: SendAction::Transmit,
            },
        )
    }

    /// The wait of an attempt has run out.
    fn expire(&mut self, tx: &mut Transmission)
        ensures
            (final(self)@, final(tx)@) == after_timeout(old(self)@, old(tx)@),
    {
        proof {
            use_type_invariant(&*tx);
        }
        if tx.attempts >= self.max_transmission_attempts {
            tx.pending = SendAction::Failed {
                error: SendError::TimedOut {
                    peer: tx.target,
                    seq_num: tx.seq_num,
                    attempts: tx.attempts,
                },
            };
        } else {
            let mut peer = self.peer(tx.target);
            tx.rto_ms = peer.back_off();
            self.peers.set(tx.target, peer);
            tx.pending = SendAction::Transmit;
        }
    }

    /// The peer has acknowledged the payload.
    fn complete(&mut self, tx: &mut Transmission)
        requires
            after_ack(old(self)@, old(tx)@).0.peer(old(tx)@.target).next_seq_num <= u32::MAX,
        ensures
            (final(self)@, final(tx)@) == after_ack(old(self)@, old(tx)@),
    {
        proof {
            use_type_invariant(&*tx);
        }
        let mut peer = self.peer(tx.target);
        if peer.next_seq_num() == tx.seq_num {
            peer.advance_next();
        }
        self.peers.set(tx.target, peer);
        tx.pending = SendAction::Done;
    }

    /// Whether what an event leads to fits in the machine's counters and
    /// sequence numbers. `advance_send` may only be called where it does.
    pub fn can_advance_send(&self, tx: &Transmission, event: &SendEvent) -> (fits: bool)
        ensures
            fits == send_fits(self@, tx@, *event),
    {
        proof {
            use_type_invariant(tx);
        }
        let next_seq_num: u32 = self.peer(tx.target).next_seq_num();
        let number_fits = next_seq_num != tx.seq_num || next_seq_num < u32::MAX;
        match (tx.pending, event) {
            (SendAction::Transmit, SendEvent::Sent { .. }) => {
                let bytes_fit = tx.data.len() <= usize::MAX - self.stats.total_bytes_sent;
                let count_fits = if tx.attempts + 1 > 1 {
                    self.stats.retransmissions < usize::MAX
                } else {
                    self.stats.packets_sent < usize::MAX
                };
                bytes_fit && count_fits
            },
            (SendAction::Listen { .. }, SendEvent::Received { src, datagram, .. }) => {
                tx.attempts == 1 || !tx.is_acked_by(*src, datagram) || number_fits
            },
            (SendAction::Smooth { .. }, SendEvent::Estimated { .. }) => number_fits,
            _ => true,
        }
    }

    /// Takes a send one step further: what happened in answer to what was
    /// pending goes in, and the send is left with what is to be done next.
    pub fn advance_send(&mut self, tx: &mut Transmission, event: SendEvent)
        requires
            send_fits(old(self)@, old(tx)@, event),
        ensures
            (final(self)@, final(tx)@) == send_next(old(self)@, old(tx)@, event),
    {
        proof {
            use_type_invariant(&*tx);
        }
        match (tx.pending, event) {
            (SendAction::Transmit, SendEvent::Sent { now_ns }) => {
                tx.pending = SendAction::ReadClock;
                tx.attempts = tx.attempts + 1;
                tx.waiting_since_ns = now_ns;
                self.stats.record_transmission(tx.data.len(), tx.attempts);
            },
            (SendAction::Transmit, SendEvent::SocketFailed) => {
                tx.pending = SendAction::Abort;
            },
            (SendAction::ReadClock, SendEvent::Clock { now_ns }) => {
                // Traffic from anyone else does not reset this deadline.
                let waited: u64 = if now_ns > tx.waiting_since_ns {
                    now_ns - tx.waiting_since_ns
                } else {
                    0
                };
                let rto_ns: u64 = tx.rto_ms * NANOS_PER_MILLI;
                if waited < rto_ns {
                    tx.pending = SendAction::Listen { timeout_ns: rto_ns - waited };
                } else {
                    self.expire(tx);
                }
            },
            (SendAction::Listen { .. }, SendEvent::Received { src, datagram, now_ns }) => {
                if !tx.is_acked_by(src, &datagram) {
                    // Stale or unrelated: keep waiting on this deadline.
                    tx.pending = SendAction::ReadClock;
                } else if tx.attempts == 1 {
                    // Only a packet that was never retransmitted gives an
                    // unambiguous round trip.
                    let rtt_ns: u64 = if now_ns > tx.started_ns {
                        now_ns - tx.started_ns
                    } else {
                        0
                    };
                    let estimate = self.peer(tx.target).estimate();
                    let previous = if estimate.is_unmeasured() {
                        None
                    } else {
                        Some(estimate)
                    };
                    tx.pending = SendAction::Smooth { rtt_ns, previous };
                } else {
                    self.complete(tx);
                }
            },
            (SendAction::Listen { .. }, SendEvent::ReceiveFailed { kind }) => {
                if kind.is_timeout() {
                    self.expire(tx);
                } else {
                    tx.pending = SendAction::Abort;
                }
            },
            (SendAction::Listen { .. }, SendEvent::SocketFailed) => {
                tx.pending = SendAction::Abort;
            },
            (SendAction::Smooth { .. }, SendEvent::Estimated { estimate, timeout_ms }) => {
                let mut peer = self.peer(tx.target);
                peer.update_rto(estimate, timeout_ms);
                self.peers.set(tx.target, peer);
                self.complete(tx);
            },
            _ => {},
        }
    }
}

} // verus!

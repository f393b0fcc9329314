//! Receiving: acknowledge every data packet, and hand on the one that is next.

use crate::addr::PeerAddr;
use crate::packet::{
    ack_packet, decode, encode, encoded_length, Packet, PacketType, PacketView, HEADER_SIZE,
};
use crate::socket::{FailureKind, RUdpSocket, SocketView};
use vstd::prelude::*;

verus! {

/// A data packet that was read, and the acknowledgement that is due for it.
#[verifier::ext_equal]
pub struct DueAckView {
    /// Where the packet came from.
    pub src: PeerAddr,
    /// The datagram that acknowledges it.
    pub ack: Seq<u8>,
    /// The packet.
    pub packet: PacketView,
}

/// A data packet that was read, and the acknowledgement that is due for it. Only
/// reading a datagram makes one.
pub struct DueAck {
    src: PeerAddr,
    ack: Vec<u8>,
    packet: Packet,
}

impl View for DueAck {
    type V = DueAckView;

    closed spec fn view(&self) -> DueAckView {
        DueAckView { src: self.src, ack: self.ack@, packet: self.packet@ }
    }
}

impl DueAck {
    #[verifier::type_invariant]
    spec fn well_formed(self) -> bool {
        &&& self.packet.p_type == PacketType::Data
        &&& self.ack@ == encode(ack_packet(self.packet.seq_num as nat))
    }

    /// Where the acknowledgement goes: back to where the packet came from.
    pub fn src(&self) -> (src: PeerAddr)
        ensures
            src == self@.src,
    {
        self.src
    }

    /// The datagram that acknowledges the packet: a bare header with the
    /// sequence number of the packet, whatever that is.
    pub fn ack(&self) -> (ack: &Vec<u8>)
        ensures
            ack@ == self@.ack,
            ack@ == encode(ack_packet(self@.packet.seq_num)),
            ack@.len() == HEADER_SIZE,
    {
        proof {
            use_type_invariant(self);
            encoded_length(ack_packet(self@.packet.seq_num));
        }
        &self.ack
    }
}

/// How far a receive has come, and with that what is to be done next.
pub enum RecvState {
    /// Read one datagram; report `Received` or `ReceiveFailed`.
    Listening,
    /// Send the acknowledgement; report `AckSent` or `SocketFailed`.
    Acknowledging { due: DueAck },
    /// The next payload from `src` is here.
    Delivered { payload: Vec<u8>, src: PeerAddr },
    /// The receive ends with the failure that was just reported.
    Aborted,
}

/// What happened.
pub enum RecvEvent {
    /// A datagram came in.
    Received { src: PeerAddr, datagram: Vec<u8> },
    /// No datagram came in.
    ReceiveFailed { kind: FailureKind },
    /// The acknowledgement was put on the wire.
    AckSent,
    /// The acknowledgement could not be sent.
    SocketFailed,
}

/// A receive, apart from how it is stored.
#[verifier::ext_equal]
pub enum RecvView {
    Listening,
    Acknowledging { src: PeerAddr, ack: Seq<u8>, packet: PacketView },
    Delivered { payload: Seq<u8>, src: PeerAddr },
    Aborted,
}

impl View for RecvState {
    type V = RecvView;

    open spec fn view(&self) -> RecvView {
        match self {
            RecvState::Listening => RecvView::Listening,
            RecvState::Acknowledging { due } => RecvView::Acknowledging {
                src: due@.src,
                ack: due@.ack,
                packet: due@.packet,
            },
            RecvState::Delivered { payload, src } => RecvView::Delivered {
                payload: payload@,
                src: *src,
            },
            RecvState::Aborted => RecvView::Aborted,
        }
    }
}

/// What a datagram leads to: a data packet is acknowledged under its own
/// sequence number, duplicate or not, and anything else is ignored.
pub open spec fn on_datagram(src: PeerAddr, datagram: Seq<u8>) -> RecvView {
    match decode(datagram) {
        Some(p) => if p.p_type == PacketType::Data {
            RecvView::Acknowledging { src, ack: encode(ack_packet(p.seq_num)), packet: p }
        } else {
            RecvView::Listening
        },
        None => RecvView::Listening,
    }
}

/// After the acknowledgement of a data packet: its bytes, a bare header, are
/// counted, and the payload is delivered exactly if it is the one expected from
/// this very peer. A duplicate is dropped.
pub open spec fn after_ack_sent(socket: SocketView, src: PeerAddr, packet: PacketView) -> (
    SocketView,
    RecvView,
) {
    let peer = socket.peer(src);
    let counted = SocketView {
        stats: socket.stats.after_acknowledgement(HEADER_SIZE as nat),
        ..socket
    };
    if packet.seq_num == peer.expected_seq_num {
        (
            counted.with_peer(src, peer.delivered()),
            RecvView::Delivered { payload: packet.payload, src },
        )
    } else {
        (counted.with_peer(src, peer), RecvView::Listening)
    }
}

/// The socket and the receive after an event. An event that does not answer
/// what is to be done changes nothing.
pub open spec fn recv_next(socket: SocketView, state: RecvView, event: RecvEvent) -> (
    SocketView,
    RecvView,
) {
    match (state, event) {
        (RecvView::Listening, RecvEvent::Received { src, datagram }) => (
            socket,
            on_datagram(src, datagram@),
        ),
        (RecvView::Listening, RecvEvent::ReceiveFailed { kind }) => {
            if kind.spec_is_timeout() {
                (socket, RecvView::Listening)
            } else {
                (socket, RecvView::Aborted)
            }
        },
        (RecvView::Acknowledging { src, packet, .. }, RecvEvent::AckSent) => after_ack_sent(
            socket,
            src,
            packet,
        ),
        (RecvView::Acknowledging { .. }, RecvEvent::SocketFailed) => (socket, RecvView::Aborted),
        _ => (socket, state),
    }
}

/// What the event leads to fits in the machine's counters and sequence numbers.
pub open spec fn recv_fits(socket: SocketView, state: RecvView, event: RecvEvent) -> bool {
    let next = recv_next(socket, state, event).0;
    &&& next.stats.in_range()
    &&& state matches RecvView::Acknowledging { src, .. } ==> next.peer(src).expected_seq_num
        <= u32::MAX
}

impl RUdpSocket {
    /// Whether what an event leads to fits in the machine's counters and
    /// sequence numbers. `recv_reliable` may only be called where it does.
    pub fn can_advance_recv(&self, state: &RecvState, event: &RecvEvent) -> (fits: bool)
        ensures
            fits == recv_fits(self@, state@, *event),
    {
        match state {
            RecvState::Acknowledging { due } => {
                let expected: u32 = self.peer(due.src).expected_seq_num();
                match event {
                    RecvEvent::AckSent => {
                        let bytes_fit = HEADER_SIZE <= usize::MAX - self.stats.total_bytes_sent;
                        bytes_fit && (due.packet.seq_num != expected || expected < u32::MAX)
                    },
                    _ => true,
                }
            },
            _ => true,
        }
    }

    /// Takes the receive of the next in-order payload from any peer one step
    /// further: what happened goes in, and what is to be done next comes out.
    pub fn recv_reliable(&mut self, state: RecvState, event: RecvEvent) -> (next: RecvState)
        requires
            recv_fits(old(self)@, state@, event),
        ensures
            (final(self)@, next@) == recv_next(old(self)@, state@, event),
    {
        match (state, event) {
            (RecvState::Listening, RecvEvent::Received { src, datagram }) => {
                match Packet::from_bytes(&datagram) {
                    Some(packet) => if packet.p_type == PacketType::Data {
                        // A duplicate means that the previous acknowledgement
                        // was lost, so it is acknowledged all the same.
                        let ack = Packet {
                            seq_num: packet.seq_num,
                            p_type: PacketType::Ack,
                            payload: Vec::new(),
                        };
                        assert(ack@ == ack_packet(packet.seq_num as nat));
                        RecvState::Acknowledging {
                            due: DueAck { src, ack: ack.to_bytes(), packet },
                        }
                    } else {
                        RecvState::Listening
                    },
                    None => RecvState::Listening,
                }
            },
            (RecvState::Listening, RecvEvent::ReceiveFailed { kind }) => {
                if kind.is_timeout() {
                    RecvState::Listening
                } else {
                    RecvState::Aborted
                }
            },
            (RecvState::Acknowledging { due }, RecvEvent::AckSent) => {
                self.stats.record_acknowledgement(due.ack().len());
                let src = due.src;
                let mut peer = self.peer(src);
                if due.packet.seq_num == peer.expected_seq_num() {
                    peer.advance_expected();
                    self.peers.set(src, peer);
                    RecvState::Delivered { payload: due.packet.payload, src }
                } else {
                    self.peers.set(src, peer);
                    RecvState::Listening
                }
            },
            (RecvState::Acknowledging { .. }, RecvEvent::SocketFailed) => RecvState::Aborted,
            (state, _) => state,
        }
    }
}

} // verus!

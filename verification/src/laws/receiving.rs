//! What holds of receiving, whoever sends what in which order.

use crate::addr::PeerAddr;
use crate::laws::sending::begin_send;
use crate::packet::{
    ack_packet, data_packet, decode, decode_inverts_encode, encode, encoded_length, PacketType,
    PacketView, HEADER_SIZE,
};
use crate::socket::receive::{after_ack_sent, on_datagram, recv_next, RecvEvent, RecvView};
use crate::socket::send::new_transmission;
use crate::socket::SocketView;
use crate::stats::StatsView;
use vstd::prelude::*;

verus! {

/// A datagram that comes in.
pub struct Arrival {
    pub src: PeerAddr,
    pub datagram: Seq<u8>,
}

/// A payload that the application is handed.
pub struct Delivery {
    pub src: PeerAddr,
    pub payload: Seq<u8>,
}

/// The socket after a datagram was read and, where one is due, acknowledged,
/// and what the application is handed.
pub open spec fn on_arrival(socket: SocketView, arrival: Arrival) -> (
    SocketView,
    Option<Delivery>,
) {
    match on_datagram(arrival.src, arrival.datagram) {
        RecvView::Acknowledging { src, packet, .. } => {
            let (s, state) = after_ack_sent(socket, src, packet);
            match state {
                RecvView::Delivered { payload, src } => (s, Some(Delivery { src, payload })),
                _ => (s, None),
            }
        },
        _ => (socket, None),
    }
}

/// The socket after a number of datagrams, and all that the application was
/// handed, in order.
pub open spec fn run_arrivals(socket: SocketView, arrivals: Seq<Arrival>) -> (
    SocketView,
    Seq<Delivery>,
)
    decreases arrivals.len(),
{
    if arrivals.len() == 0 {
        (socket, Seq::empty())
    } else {
        let (s, out) = run_arrivals(socket, arrivals.drop_last());
        match on_arrival(s, arrivals.last()) {
            (s2, Some(delivery)) => (s2, out.push(delivery)),
            (s2, None) => (s2, out),
        }
    }
}

/// The datagrams of one peer, in order.
pub open spec fn arrivals_from(arrivals: Seq<Arrival>, peer: PeerAddr) -> Seq<Arrival>
    decreases arrivals.len(),
{
    if arrivals.len() == 0 {
        Seq::empty()
    } else if arrivals.last().src == peer {
        arrivals_from(arrivals.drop_last(), peer).push(arrivals.last())
    } else {
        arrivals_from(arrivals.drop_last(), peer)
    }
}

/// An acknowledgement that is put on the wire.
pub struct Reply {
    pub to: PeerAddr,
    pub ack: Seq<u8>,
}

/// The acknowledgement that a datagram is answered with, if it is.
pub open spec fn reply(arrival: Arrival) -> Option<Reply> {
    match on_datagram(arrival.src, arrival.datagram) {
        RecvView::Acknowledging { src, ack, .. } => Some(Reply { to: src, ack }),
        _ => None,
    }
}

/// The acknowledgements that a number of datagrams are answered with, in order.
pub open spec fn replies(arrivals: Seq<Arrival>) -> Seq<Reply>
    decreases arrivals.len(),
{
    if arrivals.len() == 0 {
        Seq::empty()
    } else {
        let out = replies(arrivals.drop_last());
        match reply(arrivals.last()) {
            Some(r) => out.push(r),
            None => out,
        }
    }
}

/// The acknowledgements sent to one peer, in order.
pub open spec fn acks_to(out: Seq<Reply>, peer: PeerAddr) -> Seq<Seq<u8>>
    decreases out.len(),
{
    if out.len() == 0 {
        Seq::empty()
    } else if out.last().to == peer {
        acks_to(out.drop_last(), peer).push(out.last().ack)
    } else {
        acks_to(out.drop_last(), peer)
    }
}

/// The sequence numbers of the datagrams that carry data, in order.
pub open spec fn data_numbers(arrivals: Seq<Arrival>) -> Seq<nat>
    decreases arrivals.len(),
{
    if arrivals.len() == 0 {
        Seq::empty()
    } else {
        let numbers = data_numbers(arrivals.drop_last());
        if is_data(arrivals.last().datagram) {
            numbers.push(decode(arrivals.last().datagram)->Some_0.seq_num)
        } else {
            numbers
        }
    }
}

proof fn acks_to_push(out: Seq<Reply>, r: Reply, peer: PeerAddr)
    ensures
        acks_to(out.push(r), peer) == (if r.to == peer {
            acks_to(out, peer).push(r.ack)
        } else {
            acks_to(out, peer)
        }),
{
    assert(out.push(r).drop_last() =~= out);
}

/// The payloads of one peer, in order.
pub open spec fn payloads_from(out: Seq<Delivery>, peer: PeerAddr) -> Seq<Seq<u8>>
    decreases out.len(),
{
    if out.len() == 0 {
        Seq::empty()
    } else if out.last().src == peer {
        payloads_from(out.drop_last(), peer).push(out.last().payload)
    } else {
        payloads_from(out.drop_last(), peer)
    }
}

proof fn payloads_from_push(out: Seq<Delivery>, delivery: Delivery, peer: PeerAddr)
    ensures
        payloads_from(out.push(delivery), peer) == (if delivery.src == peer {
            payloads_from(out, peer).push(delivery.payload)
        } else {
            payloads_from(out, peer)
        }),
{
    assert(out.push(delivery).drop_last() =~= out);
}

/// An arrival as the receive goes through it: the datagram is read, and where an
/// acknowledgement is due it is sent. That is the reply.
pub proof fn arrival_follows_the_receive(socket: SocketView, src: PeerAddr, datagram: Vec<u8>)
    ensures
        ({
            let arrival = Arrival { src, datagram: datagram@ };
            let read = recv_next(
                socket,
                RecvView::Listening,
                RecvEvent::Received { src, datagram },
            );
            let (s, state) = recv_next(read.0, read.1, RecvEvent::AckSent);
            &&& on_arrival(socket, arrival) == (
                s,
                match state {
                    RecvView::Delivered { payload, src } => Some(Delivery { src, payload }),
                    _ => None,
                },
            )
            &&& reply(arrival) == (match read.1 {
                RecvView::Acknowledging { src, ack, .. } => Some(Reply { to: src, ack }),
                _ => None,
            })
        }),
{
}

/// A datagram that carries data.
pub open spec fn is_data(datagram: Seq<u8>) -> bool {
    decode(datagram) is Some && decode(datagram)->Some_0.p_type == PacketType::Data
}

/// Every data packet is acknowledged under its own sequence number, whether it
/// is new, a duplicate or out of order, and whatever the socket knows. Nothing
/// else is acknowledged.
pub proof fn every_data_packet_is_acknowledged(
    socket: SocketView,
    src: PeerAddr,
    datagram: Vec<u8>,
)
    ensures
        ({
            let (s, state) = recv_next(
                socket,
                RecvView::Listening,
                RecvEvent::Received { src, datagram },
            );
            &&& s == socket
            &&& state is Acknowledging <==> is_data(datagram@)
            &&& is_data(datagram@) ==> {
                &&& state->Acknowledging_src == src
                &&& decode(state->ack) == Some(ack_packet(decode(datagram@)->Some_0.seq_num))
                &&& state->ack.len() == HEADER_SIZE
            }
        }),
{
    if let Some(p) = decode(datagram@) {
        assert(p.seq_num <= u32::MAX);
        decode_inverts_encode(ack_packet(p.seq_num));
        encoded_length(ack_packet(p.seq_num));
    }
}

/// The acknowledgement that a receiver sends for a datagram is one that
/// satisfies the send that the datagram came from.
pub proof fn ack_satisfies_the_sender(
    sender: SocketView,
    payload: Seq<u8>,
    sender_addr: PeerAddr,
    receiver_addr: PeerAddr,
    now_ns: nat,
)
    requires
        sender.peer(receiver_addr).next_seq_num <= u32::MAX,
    ensures
        ({
            let tx = new_transmission(sender, payload, receiver_addr, now_ns);
            let state = on_datagram(sender_addr, tx.data);
            state is Acknowledging && tx.is_acked_by(receiver_addr, state->ack)
        }),
{
    let n = sender.peer(receiver_addr).next_seq_num;
    decode_inverts_encode(data_packet(n, payload));
    decode_inverts_encode(ack_packet(n));
}

/// A datagram that gets through is delivered as it was sent, byte for byte,
/// where the two sides are in step: the application is handed exactly the
/// payload, and the receiver moves on by one.
pub proof fn payload_survives_the_trip(
    sender: SocketView,
    receiver: SocketView,
    payload: Seq<u8>,
    sender_addr: PeerAddr,
    receiver_addr: PeerAddr,
    now_ns: nat,
)
    requires
        sender.peer(receiver_addr).next_seq_num <= u32::MAX,
        receiver.peer(sender_addr).expected_seq_num == sender.peer(receiver_addr).next_seq_num,
    ensures
        ({
            let tx = begin_send(sender, payload, receiver_addr, now_ns).1;
            let (s, out) = on_arrival(receiver, Arrival { src: sender_addr, datagram: tx.data });
            &&& out == Some(Delivery { src: sender_addr, payload })
            &&& s.peer(sender_addr) == receiver.peer(sender_addr).delivered()
        }),
{
    decode_inverts_encode(data_packet(sender.peer(receiver_addr).next_seq_num, payload));
}

/// A datagram that was delivered is never delivered again, however many other
/// datagrams come in between: the same datagram, arriving later from the same
/// peer, hands the application nothing.
pub proof fn duplicates_are_dropped(socket: SocketView, arrival: Arrival, between: Seq<Arrival>)
    requires
        on_arrival(socket, arrival).1 is Some,
    ensures
        ({
            let delivered = on_arrival(socket, arrival).0;
            let later = run_arrivals(delivered, between).0;
            on_arrival(later, arrival).1 is None
        }),
{
    let delivered = on_arrival(socket, arrival).0;
    deliveries_are_consecutive(delivered, between, arrival.src);
}

/// A datagram of this peer that carries a payload under a sequence number.
pub open spec fn carries(arrival: Arrival, peer: PeerAddr, seq_num: nat, payload: Seq<u8>) -> bool {
    arrival.src == peer && decode(arrival.datagram) == Some(data_packet(seq_num, payload))
}

/// Some of the datagrams of this peer carries a payload under a sequence number.
pub open spec fn arrived(
    arrivals: Seq<Arrival>,
    peer: PeerAddr,
    seq_num: nat,
    payload: Seq<u8>,
) -> bool {
    exists|i: int|
        0 <= i < arrivals.len() && carries(#[trigger] arrivals[i], peer, seq_num, payload)
}

/// What the application is handed from a peer is gapless and in order: the
/// payloads are those that this peer's own datagrams carried under consecutive
/// sequence numbers, beginning with the one that was expected, each number once.
pub proof fn deliveries_are_consecutive(
    socket: SocketView,
    arrivals: Seq<Arrival>,
    peer: PeerAddr,
)
    ensures
        ({
            let (s, out) = run_arrivals(socket, arrivals);
            let payloads = payloads_from(out, peer);
            let first = socket.peer(peer).expected_seq_num;
            &&& s.peer(peer).expected_seq_num == first + payloads.len()
            &&& forall|k: int|
                0 <= k < payloads.len() ==> #[trigger] arrived(
                    arrivals,
                    peer,
                    (first + k) as nat,
                    payloads[k],
                )
        }),
    decreases arrivals.len(),
{
    if arrivals.len() > 0 {
        let shorter = arrivals.drop_last();
        deliveries_are_consecutive(socket, shorter, peer);
        let (s1, out1) = run_arrivals(socket, shorter);
        let (s, out) = run_arrivals(socket, arrivals);
        let before = payloads_from(out1, peer);
        let payloads = payloads_from(out, peer);
        let first = socket.peer(peer).expected_seq_num;
        let last = arrivals.last();
        if let Some(delivery) = on_arrival(s1, last).1 {
            payloads_from_push(out1, delivery, peer);
        }
        assert forall|k: int| 0 <= k < payloads.len() implies #[trigger] arrived(
            arrivals,
            peer,
            (first + k) as nat,
            payloads[k],
        ) by {
            if k < before.len() {
                assert(arrived(shorter, peer, (first + k) as nat, before[k]));
                let i = choose|i: int|
                    0 <= i < shorter.len() && carries(
                        #[trigger] shorter[i],
                        peer,
                        (first + k) as nat,
                        before[k],
                    );
                assert(arrivals[i] == shorter[i]);
            } else {
                assert(arrivals[arrivals.len() - 1] == last);
                let p = decode(last.datagram)->Some_0;
                assert(p == data_packet(p.seq_num, p.payload));
                assert(carries(last, peer, (first + k) as nat, payloads[k]));
            }
        }
    }
}

/// Streams do not mix: what the application is handed from a peer, what the
/// socket knows of it afterwards and the acknowledgements that are sent to it, in
/// order, depend on that peer's own datagrams alone, however they are interleaved
/// with those of others.
pub proof fn streams_are_independent(socket: SocketView, arrivals: Seq<Arrival>, peer: PeerAddr)
    ensures
        ({
            let (s, out) = run_arrivals(socket, arrivals);
            let (own_s, own_out) = run_arrivals(socket, arrivals_from(arrivals, peer));
            &&& payloads_from(out, peer) == payloads_from(own_out, peer)
            &&& s.peer(peer) == own_s.peer(peer)
            &&& s.peers.contains_key(peer) <==> own_s.peers.contains_key(peer)
            &&& acks_to(replies(arrivals), peer) == acks_to(
                replies(arrivals_from(arrivals, peer)),
                peer,
            )
        }),
    decreases arrivals.len(),
{
    if arrivals.len() > 0 {
        let shorter = arrivals.drop_last();
        let last = arrivals.last();
        streams_are_independent(socket, shorter, peer);
        let (s1, out1) = run_arrivals(socket, shorter);
        if let Some(delivery) = on_arrival(s1, last).1 {
            payloads_from_push(out1, delivery, peer);
        }
        if let Some(r) = reply(last) {
            acks_to_push(replies(shorter), r, peer);
        }
        if last.src == peer {
            let own = arrivals_from(shorter, peer);
            assert(own.push(last).drop_last() =~= own);
            let (own_s1, own_out1) = run_arrivals(socket, own);
            if let Some(delivery) = on_arrival(own_s1, last).1 {
                payloads_from_push(own_out1, delivery, peer);
            }
            if let Some(r) = reply(last) {
                acks_to_push(replies(own), r, peer);
            }
        }
    }
}

/// The acknowledgements that a peer is sent are, in order, one for each of its
/// own datagrams that carries data, under the number of that datagram. No other
/// datagram of this or another peer adds one or takes one away.
pub proof fn acknowledgements_answer_own_datagrams(arrivals: Seq<Arrival>, peer: PeerAddr)
    ensures
        ({
            let numbers = data_numbers(arrivals_from(arrivals, peer));
            acks_to(replies(arrivals), peer) == numbers.map_values(
                |n: nat| encode(ack_packet(n)),
            )
        }),
    decreases arrivals.len(),
{
    let ack_of = |n: nat| encode(ack_packet(n));
    let own = arrivals_from(arrivals, peer);
    if arrivals.len() == 0 {
        assert(data_numbers(own).map_values(ack_of) =~= Seq::<Seq<u8>>::empty());
    } else {
        let shorter = arrivals.drop_last();
        let last = arrivals.last();
        acknowledgements_answer_own_datagrams(shorter, peer);
        if let Some(r) = reply(last) {
            acks_to_push(replies(shorter), r, peer);
        }
        if last.src == peer {
            let before = arrivals_from(shorter, peer);
            assert(own.drop_last() =~= before);
            if is_data(last.datagram) {
                let n = decode(last.datagram)->Some_0.seq_num;
                assert(data_numbers(own).map_values(ack_of) =~= data_numbers(before).map_values(
                    ack_of,
                ).push(ack_of(n)));
            }
        }
    }
}

/// The bytes of every acknowledgement are counted: five per data packet, new or
/// duplicate, whoever it is from. The other counters stay.
pub proof fn acknowledgements_are_counted_in_bytes(socket: SocketView, arrivals: Seq<Arrival>)
    ensures
        run_arrivals(socket, arrivals).0.stats == (StatsView {
            total_bytes_sent: socket.stats.total_bytes_sent + (HEADER_SIZE as nat)
                * data_numbers(arrivals).len(),
            ..socket.stats
        }),
    decreases arrivals.len(),
{
    if arrivals.len() > 0 {
        acknowledgements_are_counted_in_bytes(socket, arrivals.drop_last());
    }
}

/// Receiving leaves what sending goes by alone: the sequence numbers to send,
/// the estimates and the timeouts of every peer, and the attempt limit stay.
pub proof fn receiving_leaves_sending_alone(
    socket: SocketView,
    arrivals: Seq<Arrival>,
    peer: PeerAddr,
)
    ensures
        ({
            let s = run_arrivals(socket, arrivals).0;
            &&& s.peer(peer).next_seq_num == socket.peer(peer).next_seq_num
            &&& s.peer(peer).estimate == socket.peer(peer).estimate
            &&& s.peer(peer).rto_ms == socket.peer(peer).rto_ms
            &&& s.max_attempts == socket.max_attempts
        }),
    decreases arrivals.len(),
{
    if arrivals.len() > 0 {
        receiving_leaves_sending_alone(socket, arrivals.drop_last(), peer);
    }
}

/// A failed acknowledgement leaves everything as it was, so the packet can be
/// received again.
pub proof fn failed_ack_changes_nothing(
    socket: SocketView,
    src: PeerAddr,
    ack: Seq<u8>,
    packet: PacketView,
)
    ensures
        recv_next(socket, RecvView::Acknowledging { src, ack, packet }, RecvEvent::SocketFailed)
            == (socket, RecvView::Aborted),
{
}

} // verus!

//! What each single step does, in bytes, nanoseconds and counts.

use crate::addr::PeerAddr;
use crate::laws::sending::begin_send;
use crate::laws::wire::{
    a_datagram_is_read_in_order, a_packet_is_written_in_order,
    an_acknowledgement_repeats_the_number,
};
use crate::packet::{data_packet, PacketView};
use crate::peer::{PeerView, RttEstimate};
use crate::socket::receive::{recv_fits, recv_next, RecvEvent, RecvState, RecvView};
use crate::socket::send::{
    send_fits, send_next, SendAction, SendError, SendEvent, TransmissionView,
};
use crate::socket::{FailureKind, SocketView};
use crate::stats::{SocketStats, StatsView};
use vstd::prelude::*;

verus! {

/// What a socket has on record of an address: both sides begin at sequence number
/// 0, with nothing measured and a timeout of half a second.
pub open spec fn on_record(socket: SocketView, addr: PeerAddr) -> PeerView {
    if socket.peers.contains_key(addr) {
        socket.peers[addr]
    } else {
        PeerView {
            next_seq_num: 0,
            expected_seq_num: 0,
            estimate: RttEstimate { srtt_bits: 0, rttvar_bits: 0 },
            rto_ms: 500,
        }
    }
}

/// The record of an address is the one that was set last, and a record with both
/// sequence numbers at 0 and a timeout of half a second if none was.
pub proof fn a_record_is_kept_per_address(
    socket: SocketView,
    addr: PeerAddr,
    record: PeerView,
    other: PeerAddr,
)
    ensures
        socket.peer(addr) == on_record(socket, addr),
        ({
            let s = socket.with_peer(addr, record);
            &&& s.peer(addr) == record
            &&& other != addr ==> s.peer(other) == socket.peer(other)
            &&& s.peers == socket.peers.insert(addr, record)
            &&& s.max_attempts == socket.max_attempts
            &&& s.stats == socket.stats
        }),
{
}

/// The limit of attempts is the one that was set, at least one; the peers and the
/// counters stay. The last limit set is the one that counts.
pub proof fn the_limit_is_the_one_set(socket: SocketView, attempts: nat, later: nat)
    ensures
        ({
            let s = socket.with_limit(attempts);
            &&& attempts >= 1 ==> s.max_attempts == attempts
            &&& attempts == 0 ==> s.max_attempts == 1
            &&& s.peers == socket.peers
            &&& s.stats == socket.stats
            &&& s.with_limit(later) == socket.with_limit(later)
        }),
{
}

/// A socket just opened knows nobody, has counted nothing, and transmits a packet
/// at most ten times.
pub proof fn a_fresh_socket_knows_nobody(socket: SocketView, addr: PeerAddr)
    requires
        socket.is_fresh(),
    ensures
        !socket.peers.contains_key(addr),
        socket.max_attempts == 10,
        socket.stats.packets_sent == 0,
        socket.stats.retransmissions == 0,
        socket.stats.total_bytes_sent == 0,
{
}

/// A send begins with nothing transmitted, under the target's number in use and
/// with the target's timeout. Its datagram is that number, most significant byte
/// first, the byte 1 and the payload. The target gets a record, and no record
/// changes otherwise.
pub proof fn a_send_begins_with_the_target_on_record(
    socket: SocketView,
    payload: Seq<u8>,
    target: PeerAddr,
    now_ns: nat,
)
    requires
        on_record(socket, target).next_seq_num <= u32::MAX,
    ensures
        ({
            let (s, tx) = begin_send(socket, payload, target, now_ns);
            let peer = on_record(socket, target);
            let d = tx.data;
            &&& s.peers == socket.peers.insert(target, peer)
            &&& s.max_attempts == socket.max_attempts
            &&& s.stats == socket.stats
            &&& tx.target == target
            &&& tx.seq_num == peer.next_seq_num
            &&& tx.rto_ms == peer.rto_ms
            &&& tx.attempts == 0
            &&& tx.started_ns == now_ns
            &&& tx.waiting_since_ns == now_ns
            &&& tx.pending is Transmit
            &&& d.len() == 5 + payload.len()
            &&& d[0] * 0x100_0000 + d[1] * 0x1_0000 + d[2] * 0x100 + d[3] == peer.next_seq_num
            &&& d[4] == 1
            &&& d.subrange(5, d.len() as int) == payload
        }),
{
    a_packet_is_written_in_order(data_packet(on_record(socket, target).next_seq_num, payload));
}

/// A datagram put on the wire counts with all of its bytes, as a packet the first
/// time and as a retransmission after that. The wait for the acknowledgement
/// begins when it was sent.
pub proof fn a_transmission_is_counted_and_waited_on(
    socket: SocketView,
    tx: TransmissionView,
    now_ns: u64,
)
    requires
        tx.pending is Transmit,
    ensures
        ({
            let (s, t) = send_next(socket, tx, SendEvent::Sent { now_ns });
            &&& s.peers == socket.peers
            &&& s.max_attempts == socket.max_attempts
            &&& s.stats.total_bytes_sent == socket.stats.total_bytes_sent + tx.data.len()
            &&& tx.attempts == 0 ==> {
                &&& s.stats.packets_sent == socket.stats.packets_sent + 1
                &&& s.stats.retransmissions == socket.stats.retransmissions
            }
            &&& tx.attempts > 0 ==> {
                &&& s.stats.packets_sent == socket.stats.packets_sent
                &&& s.stats.retransmissions == socket.stats.retransmissions + 1
            }
            &&& s.stats.started == socket.stats.started
            &&& t == (TransmissionView {
                attempts: tx.attempts + 1,
                waiting_since_ns: now_ns as nat,
                pending: SendAction::ReadClock,
                ..tx
            })
        }),
{
}

/// A wait ends when the timeout in force has passed since the transmission,
/// however often the clock is read on the way: what is left of a wait and the
/// reading add up to that deadline. Listening changes nothing else, and there is
/// no listening once the deadline is reached.
pub proof fn the_deadline_of_a_wait_is_fixed(
    socket: SocketView,
    tx: TransmissionView,
    now_ns: u64,
)
    requires
        tx.pending is ReadClock,
        tx.rto_ms <= 2000,
        tx.waiting_since_ns <= now_ns,
    ensures
        ({
            let (s, t) = send_next(socket, tx, SendEvent::Clock { now_ns });
            let deadline = tx.waiting_since_ns + tx.rto_ms * 1_000_000;
            &&& t.pending is Listen <==> now_ns < deadline
            &&& t.pending matches SendAction::Listen { timeout_ns } ==> {
                &&& now_ns + timeout_ns == deadline
                &&& s == socket
                &&& t == (TransmissionView { pending: t.pending, ..tx })
            }
        }),
{
}

/// Where the clock reads less than it did at the transmission, the whole timeout
/// is left.
pub proof fn an_early_reading_leaves_the_whole_wait(
    socket: SocketView,
    tx: TransmissionView,
    now_ns: u64,
)
    requires
        tx.pending is ReadClock,
        1 <= tx.rto_ms <= 2000,
        now_ns <= tx.waiting_since_ns,
    ensures
        ({
            let (s, t) = send_next(socket, tx, SendEvent::Clock { now_ns });
            &&& s == socket
            &&& t.pending matches SendAction::Listen { timeout_ns }
            &&& timeout_ns == tx.rto_ms * 1_000_000
            &&& t == (TransmissionView { pending: t.pending, ..tx })
        }),
{
}

/// The event says that the wait of an attempt is over without an answer: the
/// clock reads the deadline or later, or the network had nothing within the read
/// timeout.
pub open spec fn ends_the_wait(tx: TransmissionView, event: SendEvent) -> bool {
    ||| tx.pending is ReadClock && (event matches SendEvent::Clock { now_ns } && now_ns
        >= tx.waiting_since_ns + tx.rto_ms * 1_000_000)
    ||| tx.pending is Listen && (event matches SendEvent::ReceiveFailed { kind } && kind
        != FailureKind::Other)
}

/// A wait that is over without an answer has one of two consequences. If the
/// packet was transmitted as often as the limit says, the send fails and names the
/// peer, the number and the attempts; the socket stays as it is. Otherwise the
/// same datagram is to be transmitted again, with the target's timeout on record
/// doubled up to two seconds, and that is what the next attempt waits.
pub proof fn an_unanswered_wait_retries_or_fails(
    socket: SocketView,
    tx: TransmissionView,
    event: SendEvent,
)
    requires
        ends_the_wait(tx, event),
        1 <= tx.rto_ms,
        tx.seq_num <= u32::MAX,
        tx.attempts <= u32::MAX,
    ensures
        ({
            let (s, t) = send_next(socket, tx, event);
            let peer = on_record(socket, tx.target);
            let doubled = if peer.rto_ms <= 1000 {
                peer.rto_ms + peer.rto_ms
            } else {
                2000
            };
            if tx.attempts >= socket.max_attempts {
                &&& s == socket
                &&& t == (TransmissionView { pending: t.pending, ..tx })
                &&& t.pending matches SendAction::Failed {
                    error: SendError::TimedOut { peer: named, seq_num, attempts },
                }
                &&& named == tx.target
                &&& seq_num == tx.seq_num
                &&& attempts == tx.attempts
            } else {
                &&& s.peers == socket.peers.insert(
                    tx.target,
                    PeerView { rto_ms: doubled, ..peer },
                )
                &&& s.max_attempts == socket.max_attempts
                &&& s.stats == socket.stats
                &&& t == (TransmissionView {
                    rto_ms: doubled,
                    pending: SendAction::Transmit,
                    ..tx
                })
            }
        }),
{
}

/// A datagram that comes in during a wait ends it only if it comes from the target
/// and is an acknowledgement of the number of the send on the wire: five bytes or
/// more, the number in the first four, most significant first, and 2 in the fifth.
/// Any other datagram leaves everything as it is, but that the clock is read again.
pub proof fn only_acknowledging_bytes_end_a_wait(
    socket: SocketView,
    tx: TransmissionView,
    src: PeerAddr,
    datagram: Vec<u8>,
    now_ns: u64,
)
    requires
        tx.pending is Listen,
    ensures
        ({
            let (s, t) = send_next(socket, tx, SendEvent::Received { src, datagram, now_ns });
            let d = datagram@;
            let acknowledges = src == tx.target && d.len() >= 5 && d[4] == 2 && d[0] * 0x100_0000
                + d[1] * 0x1_0000 + d[2] * 0x100 + d[3] == tx.seq_num;
            &&& t.pending is Smooth || t.pending is Done <==> acknowledges
            &&& !acknowledges ==> {
                &&& s == socket
                &&& t == (TransmissionView { pending: SendAction::ReadClock, ..tx })
            }
            &&& acknowledges ==> (t.pending is Smooth <==> tx.attempts == 1)
        }),
{
    a_datagram_is_read_in_order(datagram@);
}

/// An acknowledgement of a packet that was transmitted once gives a sample: the
/// time from the beginning of the send to its arrival. It is to be folded into the
/// very estimate that the target has on record, smoothed time as smoothed time
/// and variation as variation, or into none if the smoothed time is the number
/// zero, whatever its sign.
pub proof fn a_sample_is_folded_into_the_estimate_on_record(
    socket: SocketView,
    tx: TransmissionView,
    src: PeerAddr,
    datagram: Vec<u8>,
    now_ns: u64,
)
    requires
        tx.pending is Listen,
    ensures
        ({
            let (s, t) = send_next(socket, tx, SendEvent::Received { src, datagram, now_ns });
            t.pending matches SendAction::Smooth { rtt_ns, previous } ==> {
                let recorded = on_record(socket, tx.target).estimate;
                let zero = recorded.srtt_bits == 0 || recorded.srtt_bits == 0x8000_0000_0000_0000;
                &&& s == socket
                &&& t == (TransmissionView { pending: t.pending, ..tx })
                &&& tx.attempts == 1
                &&& tx.started_ns <= now_ns ==> tx.started_ns + rtt_ns == now_ns
                &&& tx.started_ns > now_ns ==> rtt_ns == 0
                &&& previous is None <==> zero
                &&& previous matches Some(estimate) ==> {
                    &&& estimate.srtt_bits == recorded.srtt_bits
                    &&& estimate.rttvar_bits == recorded.rttvar_bits
                }
            }
        }),
{
}

/// An acknowledgement of a packet that was retransmitted moves the target on by
/// one number and changes nothing else: not the estimate, not the timeout, not
/// the counters. So it does not move a target that has moved on already.
pub proof fn a_late_acknowledgement_moves_the_number_only(
    socket: SocketView,
    tx: TransmissionView,
    src: PeerAddr,
    datagram: Vec<u8>,
    now_ns: u64,
)
    requires
        tx.pending is Listen,
    ensures
        ({
            let (s, t) = send_next(socket, tx, SendEvent::Received { src, datagram, now_ns });
            let peer = on_record(socket, tx.target);
            t.pending is Done ==> {
                &&& tx.attempts != 1
                &&& t == (TransmissionView { pending: SendAction::Done, ..tx })
                &&& s.max_attempts == socket.max_attempts
                &&& s.stats == socket.stats
                &&& peer.next_seq_num == tx.seq_num ==> s.peers == socket.peers.insert(
                    tx.target,
                    PeerView { next_seq_num: tx.seq_num + 1, ..peer },
                )
                &&& peer.next_seq_num != tx.seq_num ==> s.peers == socket.peers.insert(
                    tx.target,
                    peer,
                )
            }
        }),
{
}

/// A new estimate is stored as it is, smoothed time and variation each in its own
/// place, and the timeout becomes what was computed from it, but no less than 50
/// and no more than 2000 milliseconds. The send has succeeded, and the target
/// moves on by one number. What is expected from the target, the other peers and
/// the counters stay.
pub proof fn an_estimate_is_stored_as_given(
    socket: SocketView,
    tx: TransmissionView,
    estimate: RttEstimate,
    timeout_ms: u64,
)
    requires
        tx.pending is Smooth,
    ensures
        ({
            let (s, t) = send_next(socket, tx, SendEvent::Estimated { estimate, timeout_ms });
            let peer = on_record(socket, tx.target);
            let now = s.peers[tx.target];
            &&& t == (TransmissionView { pending: SendAction::Done, ..tx })
            &&& s.max_attempts == socket.max_attempts
            &&& s.stats == socket.stats
            &&& s.peers == socket.peers.insert(tx.target, now)
            &&& now.estimate.srtt_bits == estimate.srtt_bits
            &&& now.estimate.rttvar_bits == estimate.rttvar_bits
            &&& 50 <= timeout_ms <= 2000 ==> now.rto_ms == timeout_ms
            &&& timeout_ms < 50 ==> now.rto_ms == 50
            &&& timeout_ms > 2000 ==> now.rto_ms == 2000
            &&& now.expected_seq_num == peer.expected_seq_num
            &&& peer.next_seq_num == tx.seq_num ==> now.next_seq_num == tx.seq_num + 1
            &&& peer.next_seq_num != tx.seq_num ==> now.next_seq_num == peer.next_seq_num
        }),
{
    let s = send_next(socket, tx, SendEvent::Estimated { estimate, timeout_ms }).0;
    assert(s.peers =~= socket.peers.insert(tx.target, s.peers[tx.target]));
}

/// The estimate that one send stores is the one that the sample of the next send
/// to the same peer is folded into, bit for bit, if its smoothed time is not zero.
pub proof fn the_next_sample_continues_the_estimate(
    socket: SocketView,
    tx: TransmissionView,
    estimate: RttEstimate,
    timeout_ms: u64,
    next: TransmissionView,
    src: PeerAddr,
    datagram: Vec<u8>,
    now_ns: u64,
)
    requires
        tx.pending is Smooth,
        next.pending is Listen,
        next.target == tx.target,
    ensures
        ({
            let s = send_next(socket, tx, SendEvent::Estimated { estimate, timeout_ms }).0;
            let t = send_next(s, next, SendEvent::Received { src, datagram, now_ns }).1;
            let zero = estimate.srtt_bits == 0 || estimate.srtt_bits == 0x8000_0000_0000_0000;
            t.pending matches SendAction::Smooth { previous, .. } ==> if zero {
                previous is None
            } else {
                &&& previous matches Some(e)
                &&& e.srtt_bits == estimate.srtt_bits
                &&& e.rttvar_bits == estimate.rttvar_bits
            }
        }),
{
    an_estimate_is_stored_as_given(socket, tx, estimate, timeout_ms);
    let s = send_next(socket, tx, SendEvent::Estimated { estimate, timeout_ms }).0;
    a_sample_is_folded_into_the_estimate_on_record(s, next, src, datagram, now_ns);
}

/// A failure of the socket itself ends a send at once and leaves no trace on the
/// socket.
pub proof fn a_socket_failure_ends_the_send(
    socket: SocketView,
    tx: TransmissionView,
    event: SendEvent,
)
    requires
        (tx.pending is Transmit || tx.pending is Listen) && event is SocketFailed || (
        tx.pending is Listen && event == (SendEvent::ReceiveFailed { kind: FailureKind::Other })),
    ensures
        send_next(socket, tx, event) == (
            socket,
            TransmissionView { pending: SendAction::Abort, ..tx },
        ),
{
}

/// The event answers what the send has asked for.
pub open spec fn is_answer(pending: SendAction, event: SendEvent) -> bool {
    match pending {
        SendAction::Transmit => event is Sent || event is SocketFailed,
        SendAction::ReadClock => event is Clock,
        SendAction::Listen { .. } => event is Received || event is ReceiveFailed
            || event is SocketFailed,
        SendAction::Smooth { .. } => event is Estimated,
        _ => false,
    }
}

/// Only an answer to what the send has asked for changes anything.
pub proof fn only_answers_count(socket: SocketView, tx: TransmissionView, event: SendEvent)
    requires
        !is_answer(tx.pending, event),
    ensures
        send_next(socket, tx, event) == (socket, tx),
{
}

/// A step of a send is refused only for want of room: where the counters can take
/// the datagram and the target's number is not the last one, every event is
/// accepted. What is accepted fits.
pub proof fn a_send_step_is_refused_for_want_of_room_only(
    socket: SocketView,
    tx: TransmissionView,
    event: SendEvent,
)
    requires
        socket.stats.packets_sent <= usize::MAX,
        socket.stats.retransmissions <= usize::MAX,
        socket.stats.total_bytes_sent <= usize::MAX,
        on_record(socket, tx.target).next_seq_num <= u32::MAX,
    ensures
        ({
            let s = send_next(socket, tx, event).0;
            send_fits(socket, tx, event) <==> {
                &&& s.stats.packets_sent <= usize::MAX
                &&& s.stats.retransmissions <= usize::MAX
                &&& s.stats.total_bytes_sent <= usize::MAX
                &&& on_record(s, tx.target).next_seq_num <= u32::MAX
            }
        }),
        socket.stats.packets_sent < usize::MAX && socket.stats.retransmissions < usize::MAX
            && socket.stats.total_bytes_sent + tx.data.len() <= usize::MAX && on_record(
            socket,
            tx.target,
        ).next_seq_num < u32::MAX ==> send_fits(socket, tx, event),
{
}

/// A listening receive answers a datagram exactly if it carries data: five bytes
/// or more, with 1 in the fifth. The acknowledgement goes back to where the
/// datagram came from. It has five bytes, the same four of the sequence number and
/// then 2. Anything else is ignored, and nothing is changed by reading.
pub proof fn data_bytes_are_answered(socket: SocketView, src: PeerAddr, datagram: Vec<u8>)
    ensures
        ({
            let (s, state) = recv_next(
                socket,
                RecvView::Listening,
                RecvEvent::Received { src, datagram },
            );
            let d = datagram@;
            let carries_data = d.len() >= 5 && d[4] == 1;
            &&& s == socket
            &&& !carries_data ==> state is Listening
            &&& carries_data ==> {
                &&& state matches RecvView::Acknowledging { src: to, ack, packet }
                &&& to == src
                &&& ack == seq![d[0], d[1], d[2], d[3], 2u8]
                &&& packet.seq_num == d[0] * 0x100_0000 + d[1] * 0x1_0000 + d[2] * 0x100 + d[3]
                &&& packet.payload == d.subrange(5, d.len() as int)
            }
        }),
{
    a_datagram_is_read_in_order(datagram@);
    if datagram@.len() >= 5 {
        an_acknowledgement_repeats_the_number(datagram@);
    }
}

/// Silence does not end a receive: told that nothing arrived in time, it goes on
/// listening, whatever the socket has been through. Any other failure ends it.
/// Neither changes the socket.
pub proof fn silence_does_not_end_a_receive(socket: SocketView, kind: FailureKind)
    ensures
        ({
            let (s, state) = recv_next(
                socket,
                RecvView::Listening,
                RecvEvent::ReceiveFailed { kind },
            );
            &&& s == socket
            &&& kind is WouldBlock || kind is TimedOut ==> state is Listening
            &&& kind is Other ==> state is Aborted
        }),
{
}

/// Once a packet is acknowledged, its payload is handed on exactly if it has the
/// number expected from its sender, and then the next number is expected. The five
/// bytes of the acknowledgement are counted. The sender has a record; nothing else
/// in it changes, and no other record.
pub proof fn the_expected_packet_is_handed_on(
    socket: SocketView,
    src: PeerAddr,
    ack: Seq<u8>,
    packet: PacketView,
)
    ensures
        ({
            let state = RecvView::Acknowledging { src, ack, packet };
            let (s, next) = recv_next(socket, state, RecvEvent::AckSent);
            let peer = on_record(socket, src);
            &&& s.max_attempts == socket.max_attempts
            &&& s.stats == (StatsView {
                total_bytes_sent: socket.stats.total_bytes_sent + 5,
                ..socket.stats
            })
            &&& if packet.seq_num == peer.expected_seq_num {
                &&& next matches RecvView::Delivered { payload, src: from }
                &&& payload == packet.payload
                &&& from == src
                &&& s.peers == socket.peers.insert(
                    src,
                    PeerView { expected_seq_num: peer.expected_seq_num + 1, ..peer },
                )
            } else {
                &&& next is Listening
                &&& s.peers == socket.peers.insert(src, peer)
            }
        }),
{
}

/// The way of a datagram to the application: what it is handed is what follows the
/// first five bytes, from where the datagram came, exactly if the fifth byte is 1
/// and the first four are the number expected from there.
pub proof fn the_application_is_handed_what_follows_the_header(
    socket: SocketView,
    src: PeerAddr,
    datagram: Vec<u8>,
)
    ensures
        ({
            let d = datagram@;
            let received = RecvEvent::Received { src, datagram };
            let (s1, state1) = recv_next(socket, RecvView::Listening, received);
            let (s2, state2) = recv_next(s1, state1, RecvEvent::AckSent);
            &&& state2 is Delivered <==> d.len() >= 5 && d[4] == 1 && d[0] * 0x100_0000 + d[1]
                * 0x1_0000 + d[2] * 0x100 + d[3] == on_record(socket, src).expected_seq_num
            &&& state2 matches RecvView::Delivered { payload, src: from } ==> {
                &&& payload == d.subrange(5, d.len() as int)
                &&& from == src
            }
            &&& !(state2 is Delivered) ==> state2 is Listening
        }),
{
    data_bytes_are_answered(socket, src, datagram);
    let received = RecvEvent::Received { src, datagram };
    let state = recv_next(socket, RecvView::Listening, received).1;
    if let RecvView::Acknowledging { src: to, ack, packet } = state {
        the_expected_packet_is_handed_on(socket, to, ack, packet);
    }
}

/// The event answers what the receive has asked for.
pub open spec fn is_recv_answer(state: RecvView, event: RecvEvent) -> bool {
    match state {
        RecvView::Listening => event is Received || event is ReceiveFailed,
        RecvView::Acknowledging { .. } => event is AckSent || event is SocketFailed,
        _ => false,
    }
}

/// An acknowledgement that could not be sent ends the receive and leaves the
/// socket as it is. An event that answers nothing changes nothing.
pub proof fn only_answers_move_a_receive(
    socket: SocketView,
    state: RecvView,
    event: RecvEvent,
)
    ensures
        state is Acknowledging && event is SocketFailed ==> recv_next(socket, state, event) == (
            socket,
            RecvView::Aborted,
        ),
        !is_recv_answer(state, event) ==> recv_next(socket, state, event) == (socket, state),
{
}

/// A step of a receive is refused only for want of room: where five more bytes can
/// be counted and the number expected is not the last one, every event is
/// accepted. What is accepted fits.
pub proof fn a_receive_step_is_refused_for_want_of_room_only(
    socket: SocketView,
    state: RecvView,
    event: RecvEvent,
)
    requires
        socket.stats.packets_sent <= usize::MAX,
        socket.stats.retransmissions <= usize::MAX,
        socket.stats.total_bytes_sent <= usize::MAX,
        state matches RecvView::Acknowledging { src, .. } ==> on_record(
            socket,
            src,
        ).expected_seq_num <= u32::MAX,
    ensures
        ({
            let s = recv_next(socket, state, event).0;
            recv_fits(socket, state, event) <==> {
                &&& s.stats.packets_sent <= usize::MAX
                &&& s.stats.retransmissions <= usize::MAX
                &&& s.stats.total_bytes_sent <= usize::MAX
                &&& state matches RecvView::Acknowledging { src, .. } ==> on_record(
                    s,
                    src,
                ).expected_seq_num <= u32::MAX
            }
        }),
        socket.stats.total_bytes_sent + 5 <= usize::MAX && (
        state matches RecvView::Acknowledging { src, .. } ==> on_record(
            socket,
            src,
        ).expected_seq_num < u32::MAX) ==> recv_fits(socket, state, event),
{
}

/// What is measured replaces the timeout, within 50 to 2000 milliseconds; a
/// timeout that has run out doubles it, up to 2000. An acknowledgement and a
/// delivery each move one number on by one. Nothing else about a peer changes.
pub proof fn a_peer_changes_one_thing_at_a_time(
    peer: PeerView,
    estimate: RttEstimate,
    timeout_ms: nat,
)
    ensures
        ({
            let p = peer.estimated(estimate, timeout_ms);
            &&& p == (PeerView { estimate, rto_ms: p.rto_ms, ..peer })
            &&& 50 <= timeout_ms <= 2000 ==> p.rto_ms == timeout_ms
            &&& timeout_ms < 50 ==> p.rto_ms == 50
            &&& timeout_ms > 2000 ==> p.rto_ms == 2000
        }),
        ({
            let p = peer.backed_off();
            &&& p == (PeerView { rto_ms: p.rto_ms, ..peer })
            &&& peer.rto_ms <= 1000 ==> p.rto_ms == peer.rto_ms + peer.rto_ms
            &&& peer.rto_ms > 1000 ==> p.rto_ms == 2000
        }),
        peer.acknowledged() == (PeerView { next_seq_num: peer.next_seq_num + 1, ..peer }),
        peer.delivered() == (PeerView { expected_seq_num: peer.expected_seq_num + 1, ..peer }),
        PeerView::fresh().next_seq_num == 0,
        PeerView::fresh().expected_seq_num == 0,
        PeerView::fresh().estimate.srtt_bits == 0,
        PeerView::fresh().estimate.rttvar_bits == 0,
        PeerView::fresh().rto_ms == 500,
        estimate.spec_is_unmeasured() <==> estimate.srtt_bits % 0x8000_0000_0000_0000 == 0,
{
}

/// Silence is what a read that found nothing in time reports; any other failure is
/// one of the socket itself.
pub proof fn silence_is_no_failure(kind: FailureKind)
    ensures
        kind.spec_is_timeout() <==> kind != FailureKind::Other,
{
}

/// The counters count what their names say.
pub proof fn counters_are_read_as_they_stand(stats: SocketStats)
    ensures
        stats@.packets_sent == stats.packets_sent,
        stats@.retransmissions == stats.retransmissions,
        stats@.total_bytes_sent == stats.total_bytes_sent,
        stats@.started == stats.started,
{
}

/// A receive that holds a payload for the application holds the bytes that were
/// delivered and the address that they came from; one that holds an
/// acknowledgement, the one that is due.
pub proof fn a_receive_is_read_as_it_stands(state: RecvState)
    ensures
        state is Listening <==> state@ is Listening,
        state is Aborted <==> state@ is Aborted,
        state is Acknowledging <==> state@ is Acknowledging,
        state is Delivered <==> state@ is Delivered,
        state matches RecvState::Delivered { payload, src } ==> state@ == (RecvView::Delivered {
            payload: payload@,
            src,
        }),
        state matches RecvState::Acknowledging { due } ==> state@ == (RecvView::Acknowledging {
            src: due@.src,
            ack: due@.ack,
            packet: due@.packet,
        }),
{
}

/// A transmission counts with its bytes, and as a packet or as a retransmission by
/// whether it is the first of its packet. An acknowledgement counts with its bytes
/// only.
pub proof fn every_datagram_is_counted_once(stats: StatsView, len: nat, attempt: nat)
    ensures
        ({
            let s = stats.after_transmission(len, attempt);
            &&& s.total_bytes_sent == stats.total_bytes_sent + len
            &&& s.packets_sent + s.retransmissions == stats.packets_sent + stats.retransmissions
                + 1
            &&& s.packets_sent == stats.packets_sent <==> attempt > 1
            &&& s.retransmissions == stats.retransmissions <==> attempt <= 1
            &&& s.started == stats.started
        }),
        stats.after_acknowledgement(len) == (StatsView {
            total_bytes_sent: stats.total_bytes_sent + len,
            ..stats
        }),
{
}

} // verus!

//! What holds of a send whatever happens while it is in progress.

use crate::addr::PeerAddr;
use crate::laws::steps::on_record;
use crate::laws::wire::a_datagram_is_read_in_order;
use crate::packet::{
    data_packet, decode, decode_inverts_encode, encode, encoded_length, HEADER_SIZE,
};
use crate::peer::{
    backed_off_times, backoff_is_exponential, min_nat, rto_stays_in_band, PeerView, RttEstimate,
    MAX_RTO_MS,
};
use crate::socket::send::{
    new_transmission, send_next, time_between, SendAction, SendError, SendEvent, TransmissionView,
    NANOS_PER_MILLI,
};
use crate::socket::{FailureKind, SocketView, MAX_PACKET_SIZE, MAX_PAYLOAD_SIZE};
use crate::stats::StatsView;
use vstd::arithmetic::power2::pow2;
use vstd::prelude::*;

verus! {

/// The socket and the send that a payload begins.
pub open spec fn begin_send(
    socket: SocketView,
    payload: Seq<u8>,
    target: PeerAddr,
    now_ns: nat,
) -> (SocketView, TransmissionView) {
    (
        socket.with_peer(target, socket.peer(target)),
        new_transmission(socket, payload, target, now_ns),
    )
}

/// The socket and the send after a number of events.
pub open spec fn run_send(
    socket: SocketView,
    tx: TransmissionView,
    events: Seq<SendEvent>,
) -> (SocketView, TransmissionView)
    decreases events.len(),
{
    if events.len() == 0 {
        (socket, tx)
    } else {
        let (s, t) = run_send(socket, tx, events.drop_last());
        send_next(s, t, events.last())
    }
}

/// The socket and the send that a payload leads to.
pub open spec fn send_after(
    socket: SocketView,
    payload: Seq<u8>,
    target: PeerAddr,
    now_ns: nat,
    events: Seq<SendEvent>,
) -> (SocketView, TransmissionView) {
    let (s, tx) = begin_send(socket, payload, target, now_ns);
    run_send(s, tx, events)
}

/// The counters after a packet of `len` bytes has been transmitted `attempts`
/// times.
pub open spec fn stats_after(stats: StatsView, len: nat, attempts: nat) -> StatsView {
    if attempts == 0 {
        stats
    } else {
        StatsView {
            packets_sent: stats.packets_sent + 1,
            retransmissions: (stats.retransmissions + attempts - 1) as nat,
            total_bytes_sent: stats.total_bytes_sent + attempts * len,
            started: stats.started,
        }
    }
}

/// Where a send from `before` can have come to.
spec fn reached(
    before: SocketView,
    begun: TransmissionView,
    socket: SocketView,
    tx: TransmissionView,
) -> bool {
    let old_peer = before.peer(begun.target);
    let peer = socket.peer(begun.target);
    &&& tx.target == begun.target
    &&& tx.seq_num == begun.seq_num
    &&& tx.data == begun.data
    &&& tx.started_ns == begun.started_ns
    &&& socket.max_attempts == before.max_attempts
    &&& socket.stats == stats_after(before.stats, tx.data.len(), tx.attempts)
    &&& socket.peers.contains_key(begun.target)
    &&& forall|a: PeerAddr|
        a != begun.target ==> (#[trigger] socket.peers.contains_key(a)
            <==> before.peers.contains_key(a)) && socket.peer(a) == before.peer(a)
    &&& tx.attempts <= before.max_attempts
    &&& tx.pending is Transmit ==> tx.attempts < before.max_attempts
    &&& !(tx.pending is Transmit || tx.pending is Abort) ==> tx.attempts >= 1
    &&& !tx.is_over() ==> tx.rto_ms == peer.rto_ms && tx.seq_num == peer.next_seq_num
    &&& old_peer.rto_in_band() ==> peer.rto_in_band()
    &&& match tx.pending {
        SendAction::Transmit => peer == backed_off_times(old_peer, tx.attempts),
        SendAction::ReadClock => peer == backed_off_times(old_peer, (tx.attempts - 1) as nat),
        SendAction::Listen { timeout_ns } => {
            &&& peer == backed_off_times(old_peer, (tx.attempts - 1) as nat)
            &&& old_peer.rto_in_band() ==> 0 < timeout_ns <= tx.rto_ms * (NANOS_PER_MILLI as nat)
        },
        SendAction::Smooth { previous, .. } => {
            &&& tx.attempts == 1
            &&& peer == old_peer
            &&& previous == old_peer.estimate.measured()
        },
        SendAction::Done => {
            if tx.attempts == 1 {
                exists|e: RttEstimate, ms: nat|
                    peer == #[trigger] old_peer.estimated(e, ms).acknowledged()
            } else {
                peer == backed_off_times(old_peer, (tx.attempts - 1) as nat).acknowledged()
            }
        },
        SendAction::Failed { error } => {
            &&& peer == backed_off_times(old_peer, (tx.attempts - 1) as nat)
            &&& tx.attempts == before.max_attempts
            &&& error == (SendError::TimedOut {
                peer: begun.target,
                seq_num: begun.seq_num as u32,
                attempts: tx.attempts as u32,
            })
        },
        SendAction::Abort => {
            ||| peer == backed_off_times(old_peer, tx.attempts)
            ||| tx.attempts >= 1 && peer == backed_off_times(old_peer, (tx.attempts - 1) as nat)
        },
    }
}

proof fn step_reaches(
    before: SocketView,
    begun: TransmissionView,
    socket: SocketView,
    tx: TransmissionView,
    event: SendEvent,
)
    requires
        reached(before, begun, socket, tx),
    ensures
        ({
            let (s, t) = send_next(socket, tx, event);
            reached(before, begun, s, t)
        }),
{
    let (s, t) = send_next(socket, tx, event);
    let len = tx.data.len();
    assert((tx.attempts + 1) * len == tx.attempts * len + len) by (nonlinear_arith);
    assert(1 * len == len);
    if let SendEvent::Estimated { estimate, timeout_ms } = event {
        if tx.pending is Smooth {
            rto_stays_in_band(socket.peer(tx.target), estimate, timeout_ms as nat);
            let old_peer = before.peer(begun.target);
            assert(s.peer(begun.target) == old_peer.estimated(
                estimate,
                timeout_ms as nat,
            ).acknowledged());
        }
    }
    assert(backed_off_times(before.peer(begun.target), 0) == before.peer(begun.target));
}

proof fn run_reaches(
    socket: SocketView,
    payload: Seq<u8>,
    target: PeerAddr,
    now_ns: nat,
    events: Seq<SendEvent>,
)
    requires
        socket.max_attempts >= 1,
    ensures
        ({
            let begun = new_transmission(socket, payload, target, now_ns);
            let (s, tx) = send_after(socket, payload, target, now_ns, events);
            reached(socket, begun, s, tx)
        }),
    decreases events.len(),
{
    let begun = new_transmission(socket, payload, target, now_ns);
    if events.len() == 0 {
        assert(backed_off_times(socket.peer(target), 0) == socket.peer(target));
    } else {
        run_reaches(socket, payload, target, now_ns, events.drop_last());
        let (s, tx) = send_after(socket, payload, target, now_ns, events.drop_last());
        step_reaches(socket, begun, s, tx, events.last());
    }
}

/// Retries are bounded: a packet is never put on the wire more often than the
/// limit says, and the send stops asking for it once the limit is reached.
pub proof fn attempts_are_bounded(
    socket: SocketView,
    payload: Seq<u8>,
    target: PeerAddr,
    now_ns: nat,
    events: Seq<SendEvent>,
)
    requires
        socket.max_attempts >= 1,
    ensures
        ({
            let (s, tx) = send_after(socket, payload, target, now_ns, events);
            &&& tx.attempts <= socket.max_attempts
            &&& tx.pending is Transmit ==> tx.attempts < socket.max_attempts
        }),
{
    run_reaches(socket, payload, target, now_ns, events);
}

/// The counters tell what went on the wire: of all the transmissions of a
/// packet the first counts as a packet sent, the others as retransmissions, and
/// each of them counts with all of its bytes.
pub proof fn counters_are_exact(
    socket: SocketView,
    payload: Seq<u8>,
    target: PeerAddr,
    now_ns: nat,
    events: Seq<SendEvent>,
)
    requires
        socket.max_attempts >= 1,
    ensures
        ({
            let (s, tx) = send_after(socket, payload, target, now_ns, events);
            s.stats == stats_after(socket.stats, HEADER_SIZE as nat + payload.len(), tx.attempts)
        }),
{
    run_reaches(socket, payload, target, now_ns, events);
    encoded_length(data_packet(socket.peer(target).next_seq_num, payload));
}

/// Every attempt sends the exact same bytes to the same address: a datagram
/// that fits in a packet and carries the payload, whole and unchanged, under the
/// next sequence number of the target.
pub proof fn every_attempt_sends_the_same_datagram(
    socket: SocketView,
    payload: Seq<u8>,
    target: PeerAddr,
    now_ns: nat,
    events: Seq<SendEvent>,
)
    requires
        socket.max_attempts >= 1,
        socket.peer(target).next_seq_num <= u32::MAX,
        payload.len() <= MAX_PAYLOAD_SIZE,
    ensures
        ({
            let (s, tx) = send_after(socket, payload, target, now_ns, events);
            let seq_num = socket.peer(target).next_seq_num;
            &&& tx.target == target
            &&& tx.data == encode(data_packet(seq_num, payload))
            &&& tx.data.len() <= MAX_PACKET_SIZE
            &&& decode(tx.data) == Some(data_packet(seq_num, payload))
        }),
{
    run_reaches(socket, payload, target, now_ns, events);
    let packet = data_packet(socket.peer(target).next_seq_num, payload);
    encoded_length(packet);
    decode_inverts_encode(packet);
}

/// A send touches nothing that belongs to another peer.
pub proof fn sending_leaves_other_peers_alone(
    socket: SocketView,
    payload: Seq<u8>,
    target: PeerAddr,
    now_ns: nat,
    events: Seq<SendEvent>,
    other: PeerAddr,
)
    requires
        socket.max_attempts >= 1,
        other != target,
    ensures
        ({
            let (s, tx) = send_after(socket, payload, target, now_ns, events);
            &&& s.peers.contains_key(other) <==> socket.peers.contains_key(other)
            &&& s.peer(other) == socket.peer(other)
        }),
{
    run_reaches(socket, payload, target, now_ns, events);
    let (s, tx) = send_after(socket, payload, target, now_ns, events);
    assert(s.peers.contains_key(other) <==> socket.peers.contains_key(other));
}

/// The target of a send has a record, whatever becomes of the send. The attempt
/// limit stays.
pub proof fn target_has_a_record(
    socket: SocketView,
    payload: Seq<u8>,
    target: PeerAddr,
    now_ns: nat,
    events: Seq<SendEvent>,
)
    requires
        socket.max_attempts >= 1,
    ensures
        ({
            let s = send_after(socket, payload, target, now_ns, events).0;
            s.peers.contains_key(target) && s.max_attempts == socket.max_attempts
        }),
{
    run_reaches(socket, payload, target, now_ns, events);
}

proof fn backing_off_keeps_the_rest(peer: PeerView, timeouts: nat)
    ensures
        backed_off_times(peer, timeouts) == (PeerView {
            rto_ms: backed_off_times(peer, timeouts).rto_ms,
            ..peer
        }),
    decreases timeouts,
{
    if timeouts > 0 {
        backing_off_keeps_the_rest(peer, (timeouts - 1) as nat);
    }
}

/// The sequence number moves on, by one, exactly when the send has succeeded.
/// Otherwise it stays where it was, so a retry resumes from the same point: it
/// sends the very same datagram. What is expected from the target never changes.
pub proof fn sequence_advances_only_on_success(
    socket: SocketView,
    payload: Seq<u8>,
    target: PeerAddr,
    now_ns: nat,
    events: Seq<SendEvent>,
    retry_ns: nat,
)
    requires
        socket.max_attempts >= 1,
    ensures
        ({
            let (s, tx) = send_after(socket, payload, target, now_ns, events);
            let before = socket.peer(target);
            &&& s.peer(target).expected_seq_num == before.expected_seq_num
            &&& if tx.pending is Done {
                s.peer(target).next_seq_num == before.next_seq_num + 1
            } else {
                &&& s.peer(target).next_seq_num == before.next_seq_num
                &&& new_transmission(s, payload, target, retry_ns).data == tx.data
            }
        }),
{
    run_reaches(socket, payload, target, now_ns, events);
    let (s, tx) = send_after(socket, payload, target, now_ns, events);
    backing_off_keeps_the_rest(socket.peer(target), tx.attempts);
    if tx.attempts > 0 {
        backing_off_keeps_the_rest(socket.peer(target), (tx.attempts - 1) as nat);
    }
}

/// Karn's rule: once a packet has been retransmitted, nothing is measured on
/// it. The estimate stays as it was before the send. If the send succeeds after
/// all, the timeout before it, doubled once per timeout up to the ceiling, stays
/// in force: the next send to this peer begins with it.
pub proof fn retransmitted_packets_are_not_measured(
    socket: SocketView,
    payload: Seq<u8>,
    target: PeerAddr,
    now_ns: nat,
    events: Seq<SendEvent>,
    next_payload: Seq<u8>,
    next_ns: nat,
)
    requires
        socket.max_attempts >= 1,
        send_after(socket, payload, target, now_ns, events).1.attempts > 1,
    ensures
        ({
            let (s, tx) = send_after(socket, payload, target, now_ns, events);
            let backed_off = backed_off_times(socket.peer(target), (tx.attempts - 1) as nat);
            &&& !(tx.pending is Smooth)
            &&& s.peer(target).estimate == socket.peer(target).estimate
            &&& tx.pending is Done ==> {
                &&& s.peer(target) == backed_off.acknowledged()
                &&& new_transmission(s, next_payload, target, next_ns).rto_ms == backed_off.rto_ms
            }
        }),
{
    run_reaches(socket, payload, target, now_ns, events);
    let (s, tx) = send_after(socket, payload, target, now_ns, events);
    backing_off_keeps_the_rest(socket.peer(target), tx.attempts);
    backing_off_keeps_the_rest(socket.peer(target), (tx.attempts - 1) as nat);
}

/// A send only ever fails of its own accord by running out of attempts, and
/// the failure names the peer, the sequence number and the number of attempts,
/// which is the limit.
pub proof fn failure_means_attempts_used_up(
    socket: SocketView,
    payload: Seq<u8>,
    target: PeerAddr,
    now_ns: nat,
    events: Seq<SendEvent>,
)
    requires
        socket.max_attempts >= 1,
    ensures
        ({
            let (s, tx) = send_after(socket, payload, target, now_ns, events);
            tx.pending matches SendAction::Failed { error } ==> {
                &&& tx.attempts == socket.max_attempts
                &&& error == (SendError::TimedOut {
                    peer: target,
                    seq_num: socket.peer(target).next_seq_num as u32,
                    attempts: socket.max_attempts as u32,
                })
            }
        }),
{
    run_reaches(socket, payload, target, now_ns, events);
}

/// A send never asks its caller to wait without end, nor not at all: every wait
/// is at most what the timeout in force says, and never zero. The timeout in
/// force stays in the band.
pub proof fn waits_are_bounded(
    socket: SocketView,
    payload: Seq<u8>,
    target: PeerAddr,
    now_ns: nat,
    events: Seq<SendEvent>,
)
    requires
        socket.max_attempts >= 1,
        socket.peer(target).rto_in_band(),
    ensures
        ({
            let (s, tx) = send_after(socket, payload, target, now_ns, events);
            &&& s.peer(target).rto_in_band()
            &&& tx.pending matches SendAction::Listen { timeout_ns } ==> 0 < timeout_ns
                <= s.peer(target).rto_ms * (NANOS_PER_MILLI as nat)
        }),
{
    run_reaches(socket, payload, target, now_ns, events);
}

/// One of the events brings an acknowledgement of the send.
pub open spec fn has_ack(tx: TransmissionView, events: Seq<SendEvent>) -> bool {
    exists|i: int|
        0 <= i < events.len() && (#[trigger] events[i] matches SendEvent::Received {
            src,
            datagram,
            ..
        } && tx.is_acked_by(src, datagram@))
}

/// A send succeeds only if an acknowledgement of its sequence number came in
/// from the very address that the payload went to. Datagrams from a third
/// party, stale acknowledgements and garbage never satisfy it.
pub proof fn success_needs_an_ack_from_the_target(
    socket: SocketView,
    payload: Seq<u8>,
    target: PeerAddr,
    now_ns: nat,
    events: Seq<SendEvent>,
)
    requires
        socket.max_attempts >= 1,
    ensures
        ({
            let begun = new_transmission(socket, payload, target, now_ns);
            let (s, tx) = send_after(socket, payload, target, now_ns, events);
            tx.pending is Done || tx.pending is Smooth ==> has_ack(begun, events)
        }),
    decreases events.len(),
{
    let begun = new_transmission(socket, payload, target, now_ns);
    if events.len() > 0 {
        let shorter = events.drop_last();
        success_needs_an_ack_from_the_target(socket, payload, target, now_ns, shorter);
        run_reaches(socket, payload, target, now_ns, shorter);
        let (s, tx) = send_after(socket, payload, target, now_ns, shorter);
        let (s2, tx2) = send_next(s, tx, events.last());
        if tx2.pending is Done || tx2.pending is Smooth {
            if tx.pending is Done || tx.pending is Smooth {
                let i = choose|i: int|
                    0 <= i < shorter.len() && (#[trigger] shorter[i] matches SendEvent::Received {
                        src,
                        datagram,
                        ..
                    } && begun.is_acked_by(src, datagram@));
                assert(events[i] == shorter[i]);
            } else {
                assert(events[events.len() - 1] == events.last());
            }
        }
    }
}

/// A send under whatever number succeeds, or takes a sample, only if one of its
/// events brought a datagram from the target of at least five bytes, with that
/// number in the first four, most significant first, and 2 in the fifth.
pub proof fn success_needs_acknowledging_bytes(
    socket: SocketView,
    payload: Seq<u8>,
    target: PeerAddr,
    now_ns: nat,
    events: Seq<SendEvent>,
)
    requires
        socket.max_attempts >= 1,
    ensures
        ({
            let tx = send_after(socket, payload, target, now_ns, events).1;
            tx.pending is Done || tx.pending is Smooth ==> exists|i: int|
                0 <= i < events.len() && (#[trigger] events[i] matches SendEvent::Received {
                    src,
                    datagram,
                    ..
                } && src == target && datagram@.len() >= 5 && datagram@[4] == 2 && datagram@[0]
                    * 0x100_0000 + datagram@[1] * 0x1_0000 + datagram@[2] * 0x100 + datagram@[3]
                    == on_record(socket, target).next_seq_num)
        }),
{
    let begun = new_transmission(socket, payload, target, now_ns);
    let tx = send_after(socket, payload, target, now_ns, events).1;
    success_needs_an_ack_from_the_target(socket, payload, target, now_ns, events);
    if tx.pending is Done || tx.pending is Smooth {
        let i = choose|i: int|
            0 <= i < events.len() && (#[trigger] events[i] matches SendEvent::Received {
                src,
                datagram,
                ..
            } && begun.is_acked_by(src, datagram@));
        a_datagram_is_read_in_order(events[i]->datagram@);
    }
}

/// A sample that a send takes is to be folded into the estimate that the target
/// had on record before the send, bit for bit, or into none if the smoothed time
/// there is zero. It is taken from a packet that was transmitted once.
pub proof fn a_send_continues_the_estimate_on_record(
    socket: SocketView,
    payload: Seq<u8>,
    target: PeerAddr,
    now_ns: nat,
    events: Seq<SendEvent>,
)
    requires
        socket.max_attempts >= 1,
    ensures
        ({
            let tx = send_after(socket, payload, target, now_ns, events).1;
            let recorded = on_record(socket, target).estimate;
            tx.pending matches SendAction::Smooth { previous, .. } ==> {
                &&& tx.attempts == 1
                &&& previous is None <==> recorded.srtt_bits == 0 || recorded.srtt_bits
                    == 0x8000_0000_0000_0000
                &&& previous matches Some(estimate) ==> {
                    &&& estimate.srtt_bits == recorded.srtt_bits
                    &&& estimate.rttvar_bits == recorded.rttvar_bits
                }
            }
        }),
{
    run_reaches(socket, payload, target, now_ns, events);
}

/// One of the events is a failure of the socket itself.
pub open spec fn has_socket_failure(events: Seq<SendEvent>) -> bool {
    exists|i: int|
        0 <= i < events.len() && (#[trigger] events[i] is SocketFailed || (
        events[i] matches SendEvent::ReceiveFailed { kind } && !kind.spec_is_timeout()))
}

/// A send is only ever aborted by a failure of the socket itself.
pub proof fn abort_needs_a_socket_failure(
    socket: SocketView,
    payload: Seq<u8>,
    target: PeerAddr,
    now_ns: nat,
    events: Seq<SendEvent>,
)
    ensures
        send_after(socket, payload, target, now_ns, events).1.pending is Abort
            ==> has_socket_failure(events),
    decreases events.len(),
{
    if events.len() > 0 {
        let shorter = events.drop_last();
        abort_needs_a_socket_failure(socket, payload, target, now_ns, shorter);
        let tx = send_after(socket, payload, target, now_ns, shorter).1;
        if tx.pending is Abort {
            let i = choose|i: int|
                0 <= i < shorter.len() && (#[trigger] shorter[i] is SocketFailed || (
                shorter[i] matches SendEvent::ReceiveFailed { kind } && !kind.spec_is_timeout()));
            assert(events[i] == shorter[i]);
        } else {
            assert(events[events.len() - 1] == events.last());
        }
    }
}

/// Whatever else happens, a send that gets no acknowledgement and meets no
/// failure of the socket can only end one way: with the timeout error after
/// exactly as many attempts as the limit says. The target's record is then what
/// it was before the send, backed off once per retransmission.
pub proof fn without_an_ack_the_send_times_out(
    socket: SocketView,
    payload: Seq<u8>,
    target: PeerAddr,
    now_ns: nat,
    events: Seq<SendEvent>,
)
    requires
        socket.max_attempts >= 1,
        !has_ack(new_transmission(socket, payload, target, now_ns), events),
        !has_socket_failure(events),
    ensures
        ({
            let (s, tx) = send_after(socket, payload, target, now_ns, events);
            tx.is_over() ==> {
                &&& tx.pending == (SendAction::Failed {
                    error: SendError::TimedOut {
                        peer: target,
                        seq_num: socket.peer(target).next_seq_num as u32,
                        attempts: socket.max_attempts as u32,
                    },
                })
                &&& tx.attempts == socket.max_attempts
                &&& s.peer(target) == backed_off_times(
                    socket.peer(target),
                    (socket.max_attempts - 1) as nat,
                )
            }
        }),
{
    run_reaches(socket, payload, target, now_ns, events);
    success_needs_an_ack_from_the_target(socket, payload, target, now_ns, events);
    abort_needs_a_socket_failure(socket, payload, target, now_ns, events);
}

/// Whatever happens, the wait of every attempt follows the schedule: it is the
/// timeout before the send, doubled once per attempt before this one, up to the
/// ceiling.
pub proof fn every_wait_follows_the_schedule(
    socket: SocketView,
    payload: Seq<u8>,
    target: PeerAddr,
    now_ns: nat,
    events: Seq<SendEvent>,
)
    requires
        socket.max_attempts >= 1,
        socket.peer(target).rto_in_band(),
    ensures
        ({
            let tx = send_after(socket, payload, target, now_ns, events).1;
            tx.pending is ReadClock || tx.pending is Listen ==> tx.rto_ms == min_nat(
                socket.peer(target).rto_ms * pow2((tx.attempts - 1) as nat),
                MAX_RTO_MS as nat,
            )
        }),
{
    run_reaches(socket, payload, target, now_ns, events);
    let tx = send_after(socket, payload, target, now_ns, events).1;
    if tx.attempts >= 1 {
        backoff_is_exponential(socket.peer(target), (tx.attempts - 1) as nat);
    }
}

/// Whatever comes in that does not acknowledge the send is skipped: nothing is
/// retransmitted or counted, no peer's state changes, and the send goes back to
/// its clock with the deadline that it had.
pub proof fn other_traffic_is_skipped(
    socket: SocketView,
    tx: TransmissionView,
    src: PeerAddr,
    datagram: Vec<u8>,
    now_ns: u64,
)
    requires
        tx.pending is Listen,
        !tx.is_acked_by(src, datagram@),
    ensures
        send_next(socket, tx, SendEvent::Received { src, datagram, now_ns }) == (
            socket,
            tx.asks(SendAction::ReadClock),
        ),
{
}

/// What a send goes through while others use the network too.
pub enum Happening {
    /// Something that concerns the send.
    Event { event: SendEvent },
    /// A datagram that comes in during a wait, and the reading of the clock that
    /// follows it.
    Stray { src: PeerAddr, datagram: Vec<u8>, now_ns: u64, read_ns: u64 },
}

/// The deadline of the wait has not been reached.
pub open spec fn in_time(tx: TransmissionView, read_ns: u64) -> bool {
    time_between(tx.waiting_since_ns, read_ns as nat) < tx.rto_ms * (NANOS_PER_MILLI as nat)
}

/// The send with the stray datagrams.
pub open spec fn run_noisy(
    socket: SocketView,
    tx: TransmissionView,
    history: Seq<Happening>,
) -> (SocketView, TransmissionView)
    decreases history.len(),
{
    if history.len() == 0 {
        (socket, tx)
    } else {
        let (s, t) = run_noisy(socket, tx, history.drop_last());
        match history.last() {
            Happening::Event { event } => send_next(s, t, event),
            Happening::Stray { src, datagram, now_ns, read_ns } => {
                let (s1, t1) = send_next(s, t, SendEvent::Received { src, datagram, now_ns });
                send_next(s1, t1, SendEvent::Clock { now_ns: read_ns })
            },
        }
    }
}

/// The same send without the stray datagrams: the wait that one would have
/// broken into goes on, or has run out by the time that the clock was read.
pub open spec fn run_quiet(
    socket: SocketView,
    tx: TransmissionView,
    history: Seq<Happening>,
) -> (SocketView, TransmissionView)
    decreases history.len(),
{
    if history.len() == 0 {
        (socket, tx)
    } else {
        let (s, t) = run_quiet(socket, tx, history.drop_last());
        match history.last() {
            Happening::Event { event } => send_next(s, t, event),
            Happening::Stray { read_ns, .. } => if in_time(t, read_ns) {
                (s, t)
            } else {
                send_next(s, t, SendEvent::ReceiveFailed { kind: FailureKind::TimedOut })
            },
        }
    }
}

/// The stray datagrams come in during waits, and none acknowledges the send.
pub open spec fn strays_come_during_waits(
    socket: SocketView,
    tx: TransmissionView,
    history: Seq<Happening>,
) -> bool
    decreases history.len(),
{
    history.len() == 0 || {
        &&& strays_come_during_waits(socket, tx, history.drop_last())
        &&& history.last() matches Happening::Stray { src, datagram, .. } ==> {
            let t = run_noisy(socket, tx, history.drop_last()).1;
            t.pending is Listen && !t.is_acked_by(src, datagram@)
        }
    }
}

/// Two sends that are the same but for how much of a wait was left when the
/// network was last listened to. The deadline of the wait is the same.
pub open spec fn same_send(a: TransmissionView, b: TransmissionView) -> bool {
    a == b || {
        &&& a.pending is Listen
        &&& b.pending is Listen
        &&& a == b.asks(a.pending)
    }
}

/// Stray datagrams in the waits of a send, however many, change nothing about
/// it. The socket with its peers and counters, the attempts, the datagram, the
/// deadlines and the outcome are those of the same send without them.
pub proof fn stray_traffic_does_not_change_a_send(
    socket: SocketView,
    tx: TransmissionView,
    history: Seq<Happening>,
)
    requires
        strays_come_during_waits(socket, tx, history),
    ensures
        ({
            let (noisy_s, noisy_tx) = run_noisy(socket, tx, history);
            let (quiet_s, quiet_tx) = run_quiet(socket, tx, history);
            &&& noisy_s == quiet_s
            &&& same_send(noisy_tx, quiet_tx)
        }),
    decreases history.len(),
{
    if history.len() > 0 {
        stray_traffic_does_not_change_a_send(socket, tx, history.drop_last());
    }
}

/// An acknowledgement ends the send with success and moves the target on from the
/// number that was acknowledged. If the packet was transmitted once only, the
/// round trip is folded into the estimate first, and the timeout becomes what that
/// gives, brought into the band; otherwise the estimate and the timeout stay.
pub proof fn ack_ends_the_send(
    socket: SocketView,
    tx: TransmissionView,
    datagram: Vec<u8>,
    now_ns: u64,
    estimate: RttEstimate,
    timeout_ms: u64,
)
    requires
        tx.pending is Listen,
        tx.is_acked_by(tx.target, datagram@),
    ensures
        ({
            let received = SendEvent::Received { src: tx.target, datagram, now_ns };
            let (s, t) = send_next(socket, tx, received);
            let (s2, t2) = send_next(s, t, SendEvent::Estimated { estimate, timeout_ms });
            let peer = socket.peer(tx.target);
            if tx.attempts == 1 {
                &&& t.pending == (SendAction::Smooth {
                    rtt_ns: time_between(tx.started_ns, now_ns as nat) as u64,
                    previous: peer.estimate.measured(),
                })
                &&& t2.pending is Done
                &&& s2.peer(tx.target) == peer.estimated(
                    estimate,
                    timeout_ms as nat,
                ).acknowledged_under(tx.seq_num)
            } else {
                &&& t.pending is Done
                &&& s.peer(tx.target) == peer.acknowledged_under(tx.seq_num)
            }
        }),
{
}

/// As long as a send is open, it carries the number in use for its target,
/// whatever happens to it.
pub proof fn open_send_carries_the_number_in_use(
    socket: SocketView,
    payload: Seq<u8>,
    target: PeerAddr,
    now_ns: nat,
    events: Seq<SendEvent>,
)
    requires
        socket.max_attempts >= 1,
    ensures
        ({
            let (s, tx) = send_after(socket, payload, target, now_ns, events);
            !tx.is_over() ==> tx.seq_num == s.peer(target).next_seq_num
        }),
{
    run_reaches(socket, payload, target, now_ns, events);
}

/// A number is used up once, however many sends go under it: a step of a send
/// moves a peer on exactly if it is a step to success of a send to this peer
/// under the number in use, and then by one.
pub proof fn a_number_is_used_up_once(
    socket: SocketView,
    tx: TransmissionView,
    event: SendEvent,
    peer: PeerAddr,
)
    ensures
        ({
            let (s, t) = send_next(socket, tx, event);
            let number = socket.peer(peer).next_seq_num;
            s.peer(peer).next_seq_num == (if peer == tx.target && number == tx.seq_num
                && !tx.is_over() && t.pending is Done {
                number + 1
            } else {
                number
            })
        }),
{
}

/// A send that is over stays as it is, whatever happens.
pub proof fn over_is_over(socket: SocketView, tx: TransmissionView, events: Seq<SendEvent>)
    requires
        tx.is_over(),
    ensures
        run_send(socket, tx, events) == (socket, tx),
    decreases events.len(),
{
    if events.len() > 0 {
        over_is_over(socket, tx, events.drop_last());
    }
}

/// One attempt that nobody answers: the datagram goes out at one time, the
/// clock is read at another, and the wait for a datagram, if there is any left,
/// runs out.
pub open spec fn unanswered_attempt(
    socket: SocketView,
    tx: TransmissionView,
    sent_ns: u64,
    read_ns: u64,
    kind: FailureKind,
) -> (SocketView, TransmissionView) {
    let (s1, t1) = send_next(socket, tx, SendEvent::Sent { now_ns: sent_ns });
    let (s2, t2) = send_next(s1, t1, SendEvent::Clock { now_ns: read_ns });
    if t2.pending is Listen {
        send_next(s2, t2, SendEvent::ReceiveFailed { kind })
    } else {
        (s2, t2)
    }
}

/// A number of attempts that nobody answers, at the times given.
pub open spec fn unanswered_attempts(
    socket: SocketView,
    tx: TransmissionView,
    times: Seq<(u64, u64)>,
    kind: FailureKind,
) -> (SocketView, TransmissionView)
    decreases times.len(),
{
    if times.len() == 0 {
        (socket, tx)
    } else {
        let (s, t) = unanswered_attempts(socket, tx, times.drop_last(), kind);
        unanswered_attempt(s, t, times.last().0, times.last().1, kind)
    }
}

/// After fewer unanswered attempts than the limit the send is still at it, with
/// one backoff per attempt behind it.
proof fn unanswered_attempts_back_off(
    socket: SocketView,
    payload: Seq<u8>,
    target: PeerAddr,
    now_ns: nat,
    times: Seq<(u64, u64)>,
    kind: FailureKind,
)
    requires
        kind.spec_is_timeout(),
        times.len() < socket.max_attempts,
    ensures
        ({
            let (s0, begun) = begin_send(socket, payload, target, now_ns);
            let (s, tx) = unanswered_attempts(s0, begun, times, kind);
            let peer = backed_off_times(socket.peer(target), times.len());
            &&& tx.pending is Transmit
            &&& tx.attempts == times.len()
            &&& tx.target == target
            &&& tx.seq_num == begun.seq_num
            &&& tx.data == begun.data
            &&& tx.rto_ms == peer.rto_ms
            &&& s == (SocketView {
                stats: stats_after(socket.stats, begun.data.len(), times.len()),
                ..socket.with_peer(target, peer)
            })
        }),
    decreases times.len(),
{
    let (s0, begun) = begin_send(socket, payload, target, now_ns);
    let (s, tx) = unanswered_attempts(s0, begun, times, kind);
    let peer = backed_off_times(socket.peer(target), times.len());
    let end = SocketView {
        stats: stats_after(socket.stats, begun.data.len(), times.len()),
        ..socket.with_peer(target, peer)
    };
    if times.len() > 0 {
        let n = times.drop_last().len();
        let len = begun.data.len();
        unanswered_attempts_back_off(socket, payload, target, now_ns, times.drop_last(), kind);
        assert((n + 1) * len == n * len + len) by (nonlinear_arith);
        assert(1 * len == len);
    }
    assert(s.peers =~= end.peers);
}

/// A peer that never answers surfaces as an error instead of a hang: after
/// exactly as many unanswered attempts as the limit says, the send has failed
/// with the timeout error, one packet and one retransmission for every further
/// attempt are counted, and the sequence number is where it was.
pub proof fn unreachable_peer_times_out(
    socket: SocketView,
    payload: Seq<u8>,
    target: PeerAddr,
    now_ns: nat,
    times: Seq<(u64, u64)>,
    kind: FailureKind,
)
    requires
        socket.max_attempts >= 1,
        kind.spec_is_timeout(),
        times.len() == socket.max_attempts,
    ensures
        ({
            let (s0, begun) = begin_send(socket, payload, target, now_ns);
            let (s, tx) = unanswered_attempts(s0, begun, times, kind);
            &&& tx.pending == (SendAction::Failed {
                error: SendError::TimedOut {
                    peer: target,
                    seq_num: socket.peer(target).next_seq_num as u32,
                    attempts: socket.max_attempts as u32,
                },
            })
            &&& s.stats.packets_sent == socket.stats.packets_sent + 1
            &&& s.stats.retransmissions == socket.stats.retransmissions + socket.max_attempts - 1
            &&& s.peer(target).next_seq_num == socket.peer(target).next_seq_num
        }),
{
    let (s0, begun) = begin_send(socket, payload, target, now_ns);
    unanswered_attempts_back_off(socket, payload, target, now_ns, times.drop_last(), kind);
    backing_off_keeps_the_rest(socket.peer(target), times.drop_last().len());
}

/// A limit is kept to: once it is set to some number, an unanswered send is
/// transmitted exactly that many times. Before that it asks for the next
/// transmission; after that it has failed and says so.
pub proof fn a_limit_that_was_set_is_kept_to(
    socket: SocketView,
    limit: u32,
    payload: Seq<u8>,
    target: PeerAddr,
    now_ns: nat,
    times: Seq<(u64, u64)>,
    kind: FailureKind,
)
    requires
        limit >= 1,
        kind is WouldBlock || kind is TimedOut,
        times.len() <= limit,
    ensures
        ({
            let (s0, begun) = begin_send(
                socket.with_limit(limit as nat),
                payload,
                target,
                now_ns,
            );
            let (s, tx) = unanswered_attempts(s0, begun, times, kind);
            &&& tx.attempts == times.len()
            &&& times.len() < limit ==> tx.pending is Transmit
            &&& times.len() == limit ==> {
                &&& tx.pending matches SendAction::Failed {
                    error: SendError::TimedOut { peer, attempts, .. },
                }
                &&& peer == target
                &&& attempts == limit
                &&& s.stats.packets_sent == socket.stats.packets_sent + 1
                &&& s.stats.retransmissions == socket.stats.retransmissions + limit - 1
            }
        }),
{
    let limited = socket.with_limit(limit as nat);
    if times.len() < limit {
        unanswered_attempts_back_off(limited, payload, target, now_ns, times, kind);
    } else {
        unanswered_attempts_back_off(limited, payload, target, now_ns, times.drop_last(), kind);
        unreachable_peer_times_out(limited, payload, target, now_ns, times, kind);
    }
}

/// The wait of each unanswered attempt is the timeout before the send, doubled
/// once per attempt before it up to the ceiling.
pub proof fn waits_grow_exponentially(
    socket: SocketView,
    payload: Seq<u8>,
    target: PeerAddr,
    now_ns: nat,
    times: Seq<(u64, u64)>,
    kind: FailureKind,
)
    requires
        kind.spec_is_timeout(),
        times.len() < socket.max_attempts,
        socket.peer(target).rto_in_band(),
    ensures
        ({
            let (s0, begun) = begin_send(socket, payload, target, now_ns);
            let (s, tx) = unanswered_attempts(s0, begun, times, kind);
            tx.rto_ms == min_nat(
                socket.peer(target).rto_ms * pow2(times.len()),
                MAX_RTO_MS as nat,
            )
        }),
{
    unanswered_attempts_back_off(socket, payload, target, now_ns, times, kind);
    backoff_is_exponential(socket.peer(target), times.len());
}

} // verus!

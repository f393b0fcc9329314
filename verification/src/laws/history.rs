//! What holds of a socket over everything that it is ever used for.

use crate::addr::PeerAddr;
use crate::laws::sending::{
    a_number_is_used_up_once, begin_send, send_after, sending_leaves_other_peers_alone,
    sequence_advances_only_on_success, target_has_a_record,
};
use crate::packet::HEADER_SIZE;
use crate::peer::{rto_stays_in_band, PeerView};
use crate::socket::receive::{recv_fits, recv_next, RecvEvent, RecvView};
use crate::socket::send::{new_transmission, send_fits, send_next, SendEvent, TransmissionView};
use crate::socket::{FailureKind, SocketView, MAX_PAYLOAD_SIZE};
use crate::stats::StatsView;
use vstd::prelude::*;

verus! {

/// A socket that was just opened is valid.
pub proof fn fresh_socket_is_valid(socket: SocketView)
    requires
        socket.is_fresh(),
    ensures
        socket.valid(),
{
}

/// Setting the attempt limit keeps a socket valid.
pub proof fn limit_keeps_a_socket_valid(socket: SocketView, attempts: u32)
    requires
        socket.valid(),
    ensures
        socket.with_limit(attempts as nat).valid(),
{
    let s = socket.with_limit(attempts as nat);
    assert forall|addr: PeerAddr| (#[trigger] s.peer(addr)).valid() by {
        assert(socket.peer(addr).valid());
    }
}

/// Setting a record that a peer can have keeps a socket valid.
proof fn record_keeps_a_socket_valid(socket: SocketView, addr: PeerAddr, peer: PeerView)
    requires
        socket.valid(),
        peer.valid(),
    ensures
        socket.with_peer(addr, peer).valid(),
{
    let s = socket.with_peer(addr, peer);
    assert forall|other: PeerAddr| (#[trigger] s.peer(other)).valid() by {
        assert(socket.peer(other).valid());
    }
}

/// Beginning a send keeps a socket valid.
pub proof fn beginning_a_send_keeps_a_socket_valid(
    socket: SocketView,
    payload: Seq<u8>,
    target: PeerAddr,
    now_ns: nat,
)
    requires
        socket.valid(),
    ensures
        begin_send(socket, payload, target, now_ns).0.valid(),
{
    assert(socket.peer(target).valid());
    record_keeps_a_socket_valid(socket, target, socket.peer(target));
}

/// Every step of a send that the machine can hold keeps a socket valid.
pub proof fn send_step_keeps_a_socket_valid(
    socket: SocketView,
    tx: TransmissionView,
    event: SendEvent,
)
    requires
        socket.valid(),
        send_fits(socket, tx, event),
    ensures
        send_next(socket, tx, event).0.valid(),
{
    let s = send_next(socket, tx, event).0;
    assert forall|addr: PeerAddr| (#[trigger] s.peer(addr)).valid() by {
        assert(socket.peer(addr).valid());
        if let SendEvent::Estimated { estimate, timeout_ms } = event {
            rto_stays_in_band(socket.peer(addr), estimate, timeout_ms as nat);
        }
    }
}

/// Every step of a receive that the machine can hold keeps a socket valid.
pub proof fn recv_step_keeps_a_socket_valid(
    socket: SocketView,
    state: RecvView,
    event: RecvEvent,
)
    requires
        socket.valid(),
        recv_fits(socket, state, event),
    ensures
        recv_next(socket, state, event).0.valid(),
{
    let s = recv_next(socket, state, event).0;
    assert forall|addr: PeerAddr| (#[trigger] s.peer(addr)).valid() by {
        assert(socket.peer(addr).valid());
    }
}

/// Something that a socket is used for.
pub enum Activity {
    /// The attempt limit is set.
    Limit { attempts: nat },
    /// A payload is sent, as far as the events take it.
    Send { payload: Seq<u8>, target: PeerAddr, now_ns: nat, events: Seq<SendEvent> },
    /// The next payload is received, as far as the events take it.
    Receive { arrivals: Seq<RecvEvent> },
}

/// The socket and the receive after a number of events.
pub open spec fn run_recv(socket: SocketView, events: Seq<RecvEvent>) -> (SocketView, RecvView)
    decreases events.len(),
{
    if events.len() == 0 {
        (socket, RecvView::Listening)
    } else {
        let (s, state) = run_recv(socket, events.drop_last());
        recv_next(s, state, events.last())
    }
}

/// The socket after an activity. A payload that does not fit is refused.
pub open spec fn after_activity(socket: SocketView, activity: Activity) -> SocketView {
    match activity {
        Activity::Limit { attempts } => socket.with_limit(attempts),
        Activity::Send { payload, target, now_ns, events } => {
            if payload.len() > MAX_PAYLOAD_SIZE {
                socket
            } else {
                send_after(socket, payload, target, now_ns, events).0
            }
        },
        Activity::Receive { arrivals } => run_recv(socket, arrivals).0,
    }
}

/// The socket after all that it was used for.
pub open spec fn after_history(socket: SocketView, history: Seq<Activity>) -> SocketView
    decreases history.len(),
{
    if history.len() == 0 {
        socket
    } else {
        after_activity(after_history(socket, history.drop_last()), history.last())
    }
}

/// The activity is a send to this address that succeeds.
pub open spec fn is_acknowledged_send(
    socket: SocketView,
    activity: Activity,
    addr: PeerAddr,
) -> bool {
    activity matches Activity::Send { payload, target, now_ns, events } && {
        &&& target == addr
        &&& payload.len() <= MAX_PAYLOAD_SIZE
        &&& send_after(socket, payload, target, now_ns, events).1.pending is Done
    }
}

/// How many sends to this address have succeeded.
pub open spec fn acknowledged_sends(
    socket: SocketView,
    history: Seq<Activity>,
    addr: PeerAddr,
) -> nat
    decreases history.len(),
{
    if history.len() == 0 {
        0
    } else {
        let before = history.drop_last();
        acknowledged_sends(socket, before, addr) + (if is_acknowledged_send(
            after_history(socket, before),
            history.last(),
            addr,
        ) {
            1nat
        } else {
            0nat
        })
    }
}

/// The activity is a receive that ends with a payload from this address.
pub open spec fn is_delivery(socket: SocketView, activity: Activity, addr: PeerAddr) -> bool {
    activity matches Activity::Receive { arrivals } && {
        &&& run_recv(socket, arrivals).1 matches RecvView::Delivered { src, .. }
        &&& src == addr
    }
}

/// How many payloads from this address were handed to the application.
pub open spec fn deliveries(socket: SocketView, history: Seq<Activity>, addr: PeerAddr) -> nat
    decreases history.len(),
{
    if history.len() == 0 {
        0
    } else {
        let before = history.drop_last();
        deliveries(socket, before, addr) + (if is_delivery(
            after_history(socket, before),
            history.last(),
            addr,
        ) {
            1nat
        } else {
            0nat
        })
    }
}

/// Data from this address is acknowledged in a receive.
pub open spec fn acknowledges(socket: SocketView, events: Seq<RecvEvent>, addr: PeerAddr) -> bool
    decreases events.len(),
{
    events.len() > 0 && {
        let before = events.drop_last();
        ||| acknowledges(socket, before, addr)
        ||| {
            &&& events.last() is AckSent
            &&& run_recv(socket, before).1 matches RecvView::Acknowledging { src, .. }
            &&& src == addr
        }
    }
}

/// The activity gives this address a record: a payload that fits is sent to it,
/// or data from it is acknowledged.
pub open spec fn makes_a_record(socket: SocketView, activity: Activity, addr: PeerAddr) -> bool {
    match activity {
        Activity::Limit { .. } => false,
        Activity::Send { payload, target, .. } => target == addr && payload.len()
            <= MAX_PAYLOAD_SIZE,
        Activity::Receive { arrivals } => acknowledges(socket, arrivals, addr),
    }
}

/// Some of the activities gives this address a record.
pub open spec fn is_met(socket: SocketView, history: Seq<Activity>, addr: PeerAddr) -> bool
    decreases history.len(),
{
    history.len() > 0 && {
        let before = history.drop_last();
        ||| is_met(socket, before, addr)
        ||| makes_a_record(after_history(socket, before), history.last(), addr)
    }
}

/// What a receive changes about a peer: what is expected from it, by one, if the
/// receive ends with its payload, and whether it has a record.
proof fn run_recv_effect(socket: SocketView, events: Seq<RecvEvent>, addr: PeerAddr)
    ensures
        ({
            let (s, state) = run_recv(socket, events);
            let before = socket.peer(addr);
            &&& s.max_attempts == socket.max_attempts
            &&& s.peers.contains_key(addr) <==> socket.peers.contains_key(addr) || acknowledges(
                socket,
                events,
                addr,
            )
            &&& s.peer(addr) == (if state matches RecvView::Delivered { src, .. } && src == addr {
                before.delivered()
            } else {
                before
            })
        }),
    decreases events.len(),
{
    if events.len() > 0 {
        run_recv_effect(socket, events.drop_last(), addr);
    }
}

/// A receive ends without a payload only if one of its events was a failure to
/// read other than silence, or a failure to send the acknowledgement. Silence,
/// however long and whatever the socket has been through, never ends it.
pub proof fn only_a_failure_ends_a_receive_empty_handed(
    socket: SocketView,
    events: Seq<RecvEvent>,
)
    ensures
        run_recv(socket, events).1 is Aborted ==> exists|i: int|
            0 <= i < events.len() && (#[trigger] events[i] is SocketFailed || events[i] == (
            RecvEvent::ReceiveFailed { kind: FailureKind::Other })),
    decreases events.len(),
{
    if events.len() > 0 {
        let before = events.drop_last();
        only_a_failure_ends_a_receive_empty_handed(socket, before);
        if run_recv(socket, before).1 is Aborted {
            let i = choose|i: int|
                0 <= i < before.len() && (#[trigger] before[i] is SocketFailed || before[i] == (
                RecvEvent::ReceiveFailed { kind: FailureKind::Other }));
            assert(events[i] == before[i]);
        } else {
            assert(events[events.len() - 1] == events.last());
        }
    }
}

/// How many acknowledgements a receive has put on the wire.
pub open spec fn acks_sent(socket: SocketView, events: Seq<RecvEvent>) -> nat
    decreases events.len(),
{
    if events.len() == 0 {
        0
    } else {
        let before = events.drop_last();
        acks_sent(socket, before) + (if events.last() is AckSent && run_recv(
            socket,
            before,
        ).1 is Acknowledging {
            1nat
        } else {
            0nat
        })
    }
}

/// A receive counts the bytes of every acknowledgement that it put on the wire,
/// five each, and nothing else.
pub proof fn a_receive_counts_its_acknowledgements(socket: SocketView, events: Seq<RecvEvent>)
    ensures
        run_recv(socket, events).0.stats == (StatsView {
            total_bytes_sent: socket.stats.total_bytes_sent + (HEADER_SIZE as nat) * acks_sent(
                socket,
                events,
            ),
            ..socket.stats
        }),
    decreases events.len(),
{
    if events.len() > 0 {
        a_receive_counts_its_acknowledgements(socket, events.drop_last());
    }
}

/// What an activity changes about a peer's sequence numbers and record.
proof fn activity_effect(socket: SocketView, activity: Activity, addr: PeerAddr)
    requires
        socket.max_attempts >= 1,
    ensures
        ({
            let s = after_activity(socket, activity);
            &&& s.max_attempts >= 1
            &&& s.peer(addr).next_seq_num == socket.peer(addr).next_seq_num + (
            if is_acknowledged_send(socket, activity, addr) {
                1nat
            } else {
                0nat
            })
            &&& s.peer(addr).expected_seq_num == socket.peer(addr).expected_seq_num + (
            if is_delivery(socket, activity, addr) {
                1nat
            } else {
                0nat
            })
            &&& s.peers.contains_key(addr) <==> socket.peers.contains_key(addr) || makes_a_record(
                socket,
                activity,
                addr,
            )
        }),
{
    match activity {
        Activity::Limit { .. } => {},
        Activity::Send { payload, target, now_ns, events } => {
            if payload.len() <= MAX_PAYLOAD_SIZE {
                target_has_a_record(socket, payload, target, now_ns, events);
                if target == addr {
                    sequence_advances_only_on_success(
                        socket,
                        payload,
                        target,
                        now_ns,
                        events,
                        now_ns,
                    );
                } else {
                    sending_leaves_other_peers_alone(
                        socket,
                        payload,
                        target,
                        now_ns,
                        events,
                        addr,
                    );
                }
            }
        },
        Activity::Receive { arrivals } => {
            run_recv_effect(socket, arrivals, addr);
        },
    }
}

proof fn history_effect(socket: SocketView, history: Seq<Activity>, addr: PeerAddr)
    requires
        socket.max_attempts >= 1,
    ensures
        ({
            let s = after_history(socket, history);
            &&& s.max_attempts >= 1
            &&& s.peer(addr).next_seq_num == socket.peer(addr).next_seq_num + acknowledged_sends(
                socket,
                history,
                addr,
            )
            &&& s.peer(addr).expected_seq_num == socket.peer(addr).expected_seq_num + deliveries(
                socket,
                history,
                addr,
            )
            &&& s.peers.contains_key(addr) <==> socket.peers.contains_key(addr) || is_met(
                socket,
                history,
                addr,
            )
        }),
    decreases history.len(),
{
    if history.len() > 0 {
        let before = history.drop_last();
        history_effect(socket, before, addr);
        activity_effect(after_history(socket, before), history.last(), addr);
    }
}

/// The number that a send goes under is the count of the sends to its target
/// that have succeeded before, whatever else the socket was used for: sends that
/// failed or were refused, sends to others, receives, changes of the limit.
pub proof fn sends_are_numbered_by_successes(
    socket: SocketView,
    history: Seq<Activity>,
    payload: Seq<u8>,
    target: PeerAddr,
    now_ns: nat,
)
    requires
        socket.is_fresh(),
    ensures
        new_transmission(after_history(socket, history), payload, target, now_ns).seq_num
            == acknowledged_sends(socket, history, target),
{
    history_effect(socket, history, target);
}

/// What happens while a send is open.
pub enum Meanwhile {
    /// Something happens to the send.
    Event { event: SendEvent },
    /// The socket is used for something else.
    Elsewhere { activity: Activity },
}

/// The socket and an open send after what happened meanwhile.
pub open spec fn run_meanwhile(
    socket: SocketView,
    tx: TransmissionView,
    history: Seq<Meanwhile>,
) -> (SocketView, TransmissionView)
    decreases history.len(),
{
    if history.len() == 0 {
        (socket, tx)
    } else {
        let (s, t) = run_meanwhile(socket, tx, history.drop_last());
        match history.last() {
            Meanwhile::Event { event } => send_next(s, t, event),
            Meanwhile::Elsewhere { activity } => (after_activity(s, activity), t),
        }
    }
}

/// The socket is not used for another send to this address.
pub open spec fn no_send_to(history: Seq<Meanwhile>, addr: PeerAddr) -> bool {
    forall|i: int|
        0 <= i < history.len() ==> !((#[trigger] history[i]) matches Meanwhile::Elsewhere {
            activity: Activity::Send { target, .. },
        } && target == addr)
}

/// A send keeps its number whatever the socket is used for meanwhile, except for
/// another send to the same address: as long as it is open, its number is the one
/// in use for its target, and once it has succeeded the next number is in use.
/// If the send ends otherwise, the number stays in use.
pub proof fn an_open_send_keeps_its_number(
    socket: SocketView,
    payload: Seq<u8>,
    target: PeerAddr,
    now_ns: nat,
    history: Seq<Meanwhile>,
)
    requires
        socket.max_attempts >= 1,
        no_send_to(history, target),
    ensures
        ({
            let (s0, begun) = begin_send(socket, payload, target, now_ns);
            let (s, tx) = run_meanwhile(s0, begun, history);
            &&& s.max_attempts >= 1
            &&& tx.target == target
            &&& tx.seq_num == begun.seq_num
            &&& tx.data == begun.data
            &&& s.peer(target).next_seq_num == (if tx.pending is Done {
                tx.seq_num + 1
            } else {
                tx.seq_num
            })
        }),
    decreases history.len(),
{
    if history.len() > 0 {
        let before = history.drop_last();
        assert forall|i: int| 0 <= i < before.len() implies !((#[trigger] before[i]) matches
            Meanwhile::Elsewhere { activity: Activity::Send { target: other, .. } } && other
            == target) by {
            assert(before[i] == history[i]);
        }
        an_open_send_keeps_its_number(socket, payload, target, now_ns, before);
        let (s0, begun) = begin_send(socket, payload, target, now_ns);
        let (s, tx) = run_meanwhile(s0, begun, before);
        assert(history[history.len() - 1] == history.last());
        match history.last() {
            Meanwhile::Event { event } => {
                a_number_is_used_up_once(s, tx, event, target);
            },
            Meanwhile::Elsewhere { activity } => {
                activity_effect(s, activity, target);
            },
        }
    }
}

/// The number expected from a peer is the count of its payloads that were handed
/// to the application before, whatever else the socket was used for.
pub proof fn expectations_are_numbered_by_deliveries(
    socket: SocketView,
    history: Seq<Activity>,
    peer: PeerAddr,
)
    requires
        socket.is_fresh(),
    ensures
        after_history(socket, history).peer(peer).expected_seq_num == deliveries(
            socket,
            history,
            peer,
        ),
{
    history_effect(socket, history, peer);
}

/// The peers with a record are exactly those that a payload that fits was sent
/// to, acknowledged or not, and those whose data was acknowledged.
pub proof fn records_are_of_the_peers_met(
    socket: SocketView,
    history: Seq<Activity>,
    peer: PeerAddr,
)
    requires
        socket.is_fresh(),
    ensures
        after_history(socket, history).peers.contains_key(peer) <==> is_met(socket, history, peer),
{
    history_effect(socket, history, peer);
}

/// A record is never removed.
pub proof fn records_are_never_removed(
    socket: SocketView,
    history: Seq<Activity>,
    peer: PeerAddr,
)
    requires
        socket.max_attempts >= 1,
        socket.peers.contains_key(peer),
    ensures
        after_history(socket, history).peers.contains_key(peer),
{
    history_effect(socket, history, peer);
}

} // verus!

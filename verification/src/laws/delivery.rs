//! Exactly-once, in-order delivery over a network that loses, repeats, delays
//! and reorders datagrams.

use crate::addr::PeerAddr;
use crate::laws::receiving::{
    ack_satisfies_the_sender, on_arrival, payload_survives_the_trip, Arrival, Delivery,
};
use crate::laws::sending::{begin_send, run_send};
use crate::packet::{ack_packet, data_packet, decode_inverts_encode, encode};
use crate::peer::RttEstimate;
use crate::socket::receive::{on_datagram, recv_next, RecvEvent, RecvView};
use crate::socket::send::{
    new_transmission, send_next, time_between, SendEvent, TransmissionView, NANOS_PER_MILLI,
};
use crate::socket::{SocketView, MAX_PAYLOAD_SIZE};
use vstd::prelude::*;

verus! {

/// An application that sends payloads one after the other, an application that
/// receives, and the network between them. A payload whose send fails is sent
/// again before the next one.
pub struct System {
    /// The payloads, in the order in which they are to be sent.
    pub payloads: Seq<Seq<u8>>,
    pub sender_addr: PeerAddr,
    pub receiver_addr: PeerAddr,
    /// The sending socket, and the send in progress or last over.
    pub sender: SocketView,
    pub tx: Option<TransmissionView>,
    /// How many sends have succeeded.
    pub completed: nat,
    /// The receiving socket, and the receive in progress.
    pub receiver: SocketView,
    pub rx: RecvView,
    /// The acknowledgement being sent is on the wire already.
    pub ack_out: bool,
    /// The payloads from the sender that the receiving application was handed.
    pub delivered: Seq<Seq<u8>>,
    /// Every datagram that ever left the sender for the receiver. Any of them
    /// may arrive at any time, any number of times, or never.
    pub to_receiver: Set<Seq<u8>>,
    /// Every acknowledgement that ever left the receiver for the sender.
    pub to_sender: Set<Seq<u8>>,
}

/// One thing that can happen.
pub enum Step {
    /// The application sends the first payload that is not through yet.
    Begin { now_ns: nat },
    /// The sender's datagram gets on the wire.
    DatagramLeaves,
    /// Something happens to the send in progress.
    SenderEvent { send_event: SendEvent },
    /// The receiver's acknowledgement gets on the wire.
    AckLeaves,
    /// Something happens to the receive in progress.
    ReceiverEvent { recv_event: RecvEvent },
    /// The receiving application asks for the next payload.
    ReceiveAgain,
    /// The sending socket is used otherwise: other peers, its own receiving.
    SenderElsewhere { socket: SocketView },
    /// The receiving socket is used otherwise: other peers, its own sending.
    ReceiverElsewhere { socket: SocketView },
}

impl System {
    /// A send is in progress.
    pub open spec fn sending(self) -> bool {
        self.tx is Some && !self.tx->Some_0.is_over()
    }

    /// The next sequence number that the sender uses.
    pub open spec fn next(self) -> nat {
        self.sender.peer(self.receiver_addr).next_seq_num
    }

    /// The sequence number that the receiver expects.
    pub open spec fn expected(self) -> nat {
        self.receiver.peer(self.sender_addr).expected_seq_num
    }

    /// The receiver has acknowledged the payload it expects and is about to
    /// hand it to the application.
    pub open spec fn handing_over(self) -> bool {
        &&& self.ack_out
        &&& self.rx matches RecvView::Acknowledging { src, packet, .. }
        &&& src == self.sender_addr
        &&& packet.seq_num == self.expected()
    }

    /// How many payloads the receiver has taken, the one being handed over
    /// included.
    pub open spec fn taken(self) -> nat {
        if self.handing_over() {
            self.expected() + 1
        } else {
            self.expected()
        }
    }

    /// Nothing has happened yet.
    pub open spec fn is_initial(self) -> bool {
        &&& self.payloads.len() <= u32::MAX
        &&& self.next() == 0
        &&& self.expected() == 0
        &&& self.tx is None
        &&& self.rx is Listening
        &&& self.completed == 0
        &&& !self.ack_out
        &&& self.delivered == Seq::<Seq<u8>>::empty()
        &&& self.to_receiver == Set::<Seq<u8>>::empty()
        &&& self.to_sender == Set::<Seq<u8>>::empty()
    }

    /// A step that can happen: datagrams between the two come out of the
    /// network, which makes none up. Other peers may send whatever they like.
    pub open spec fn enabled(self, step: Step) -> bool {
        match step {
            Step::Begin { .. } => {
                &&& !self.sending()
                &&& self.completed < self.payloads.len()
                &&& self.payloads[self.completed as int].len() <= MAX_PAYLOAD_SIZE
            },
            Step::DatagramLeaves => self.tx is Some && self.tx->Some_0.pending is Transmit,
            Step::SenderEvent { send_event: event } => {
                &&& self.sending()
                &&& event matches SendEvent::Received { src, datagram, .. } ==> (src
                    == self.receiver_addr ==> self.to_sender.contains(datagram@))
            },
            Step::AckLeaves => self.rx is Acknowledging,
            Step::ReceiverEvent { recv_event: event } => {
                &&& event matches RecvEvent::Received { src, datagram } ==> (src
                    == self.sender_addr ==> self.to_receiver.contains(datagram@))
                &&& self.rx is Acknowledging && self.ack_out ==> !(event is SocketFailed)
            },
            Step::ReceiveAgain => self.rx is Delivered || self.rx is Aborted,
            Step::SenderElsewhere { socket } => socket.peer(self.receiver_addr).next_seq_num
                == self.next(),
            Step::ReceiverElsewhere { socket } => socket.peer(self.sender_addr).expected_seq_num
                == self.expected(),
        }
    }

    /// The system after a step.
    pub open spec fn after(self, step: Step) -> System {
        match step {
            Step::Begin { now_ns } => System {
                sender: self.sender.with_peer(
                    self.receiver_addr,
                    self.sender.peer(self.receiver_addr),
                ),
                tx: Some(
                    new_transmission(
                        self.sender,
                        self.payloads[self.completed as int],
                        self.receiver_addr,
                        now_ns,
                    ),
                ),
                ..self
            },
            Step::DatagramLeaves => System {
                to_receiver: self.to_receiver.insert(self.tx->Some_0.data),
                ..self
            },
            Step::SenderEvent { send_event: event } => {
                let (sender, tx) = send_next(self.sender, self.tx->Some_0, event);
                System {
                    sender,
                    tx: Some(tx),
                    completed: if tx.pending is Done {
                        self.completed + 1
                    } else {
                        self.completed
                    },
                    ..self
                }
            },
            Step::AckLeaves => match self.rx {
                RecvView::Acknowledging { src, ack, .. } => System {
                    ack_out: true,
                    to_sender: if src == self.sender_addr {
                        self.to_sender.insert(ack)
                    } else {
                        self.to_sender
                    },
                    ..self
                },
                _ => self,
            },
            Step::ReceiverEvent { recv_event: event } => {
                let (receiver, rx) = recv_next(self.receiver, self.rx, event);
                System {
                    receiver,
                    rx,
                    ack_out: self.ack_out && self.rx is Acknowledging && rx == self.rx,
                    delivered: match (self.rx, rx) {
                        (
                            RecvView::Acknowledging { .. },
                            RecvView::Delivered { payload, src },
                        ) => if src == self.sender_addr {
                            self.delivered.push(payload)
                        } else {
                            self.delivered
                        },
                        _ => self.delivered,
                    },
                    ..self
                }
            },
            Step::ReceiveAgain => System { rx: RecvView::Listening, ..self },
            Step::SenderElsewhere { socket } => System { sender: socket, ..self },
            Step::ReceiverElsewhere { socket } => System { receiver: socket, ..self },
        }
    }

    /// The datagram that carries a payload.
    pub open spec fn datagram(self, k: nat) -> Seq<u8> {
        encode(data_packet(k, self.payloads[k as int]))
    }

    /// What every step keeps.
    pub open spec fn inv(self) -> bool {
        &&& self.payloads.len() <= u32::MAX
        &&& self.completed == self.next() <= self.payloads.len()
        &&& self.expected() <= self.payloads.len()
        &&& self.delivered == self.payloads.take(self.expected() as int)
        &&& self.next() <= self.taken() <= self.next() + 1
        &&& self.inv_network()
        &&& self.inv_send()
        &&& self.inv_receive()
    }

    /// The network holds payloads up to the current one, each under its own
    /// sequence number, and acknowledgements of payloads that were taken.
    pub open spec fn inv_network(self) -> bool {
        &&& forall|d: Seq<u8>| #[trigger]
            self.to_receiver.contains(d) ==> exists|k: nat|
                k <= self.next() && k < self.payloads.len() && d == #[trigger] self.datagram(k)
        &&& forall|a: Seq<u8>| #[trigger]
            self.to_sender.contains(a) ==> exists|k: nat|
                k < self.taken() && a == encode(#[trigger] ack_packet(k))
    }

    /// The send in progress carries the first payload that is not through yet.
    pub open spec fn inv_send(self) -> bool {
        self.sending() ==> {
            let tx = self.tx->Some_0;
            &&& tx.target == self.receiver_addr
            &&& tx.seq_num == self.next() < self.payloads.len()
            &&& tx.data == self.datagram(self.next())
            &&& tx.pending is Smooth ==> self.taken() == self.next() + 1
        }
    }

    /// A packet being acknowledged to the sender is one that the sender sent.
    pub open spec fn inv_receive(self) -> bool {
        self.rx matches RecvView::Acknowledging { src, ack, packet } ==> src == self.sender_addr
            ==> {
            let k = packet.seq_num;
            &&& k <= self.next() && k <= self.expected() && k < self.payloads.len()
            &&& packet == data_packet(k, self.payloads[k as int])
            &&& ack == encode(ack_packet(k))
        }
    }
}

/// The system after a number of steps.
pub open spec fn run(system: System, steps: Seq<Step>) -> System
    decreases steps.len(),
{
    if steps.len() == 0 {
        system
    } else {
        run(system, steps.drop_last()).after(steps.last())
    }
}

/// Each of the steps can happen where it does.
pub open spec fn can_run(system: System, steps: Seq<Step>) -> bool
    decreases steps.len(),
{
    steps.len() == 0 || {
        &&& can_run(system, steps.drop_last())
        &&& run(system, steps.drop_last()).enabled(steps.last())
    }
}

/// The network stays sound as the two sides advance: it may gain the datagram
/// of payload `j` and the acknowledgement of payload `i`.
proof fn network_stays_sound(s: System, t: System, j: nat, i: nat)
    requires
        s.inv_network(),
        t.payloads == s.payloads,
        s.next() <= t.next(),
        s.taken() <= t.taken(),
        forall|d: Seq<u8>| #[trigger]
            t.to_receiver.contains(d) ==> s.to_receiver.contains(d) || (j <= t.next() && j
                < t.payloads.len() && d == t.datagram(j)),
        forall|a: Seq<u8>| #[trigger]
            t.to_sender.contains(a) ==> s.to_sender.contains(a) || (i < t.taken() && a == encode(
                ack_packet(i),
            )),
    ensures
        t.inv_network(),
{
    assert forall|d: Seq<u8>| #[trigger] t.to_receiver.contains(d) implies exists|k: nat|
        k <= t.next() && k < t.payloads.len() && d == #[trigger] t.datagram(k) by {
        if s.to_receiver.contains(d) {
            let k = choose|k: nat|
                k <= s.next() && k < s.payloads.len() && d == #[trigger] s.datagram(k);
            assert(d == t.datagram(k));
        } else {
            assert(d == t.datagram(j));
        }
    }
    assert forall|a: Seq<u8>| #[trigger] t.to_sender.contains(a) implies exists|k: nat|
        k < t.taken() && a == encode(#[trigger] ack_packet(k)) by {
        if s.to_sender.contains(a) {
            let k = choose|k: nat| k < s.taken() && a == encode(#[trigger] ack_packet(k));
            assert(a == encode(ack_packet(k)));
        } else {
            assert(a == encode(ack_packet(i)));
        }
    }
}

proof fn step_keeps_inv(s: System, step: Step)
    requires
        s.inv(),
        s.enabled(step),
    ensures
        s.after(step).inv(),
{
    let t = s.after(step);
    match step {
        Step::SenderEvent { send_event: event } => {
            sender_event_keeps_inv(s, event);
        },
        Step::ReceiverEvent { recv_event: event } => {
            receiver_event_keeps_inv(s, event);
        },
        Step::AckLeaves => {
            let k = s.rx->packet.seq_num;
            network_stays_sound(s, t, 0, k);
        },
        Step::DatagramLeaves => {
            network_stays_sound(s, t, s.next(), 0);
        },
        _ => {
            network_stays_sound(s, t, 0, 0);
        },
    }
}

/// A datagram that acknowledges the send in progress shows that the receiver
/// has taken its payload.
proof fn ack_shows_payload_taken(s: System, datagram: Seq<u8>)
    requires
        s.inv(),
        s.sending(),
        s.to_sender.contains(datagram),
        s.tx->Some_0.is_acked_by(s.receiver_addr, datagram),
    ensures
        s.taken() == s.next() + 1,
{
    let k = choose|k: nat| k < s.taken() && datagram == encode(#[trigger] ack_packet(k));
    decode_inverts_encode(ack_packet(k));
}

proof fn sender_event_keeps_inv(s: System, event: SendEvent)
    requires
        s.inv(),
        s.enabled(Step::SenderEvent { send_event: event }),
    ensures
        s.after(Step::SenderEvent { send_event: event }).inv(),
{
    let t = s.after(Step::SenderEvent { send_event: event });
    let tx = s.tx->Some_0;
    if let SendEvent::Received { src, datagram, .. } = event {
        if tx.is_acked_by(src, datagram@) {
            ack_shows_payload_taken(s, datagram@);
        }
    }
    network_stays_sound(s, t, 0, 0);
}

proof fn receiver_event_keeps_inv(s: System, event: RecvEvent)
    requires
        s.inv(),
        s.enabled(Step::ReceiverEvent { recv_event: event }),
    ensures
        s.after(Step::ReceiverEvent { recv_event: event }).inv(),
{
    let t = s.after(Step::ReceiverEvent { recv_event: event });
    if let RecvEvent::Received { src, datagram } = event {
        if s.rx is Listening && src == s.sender_addr {
            let d = datagram@;
            let k = choose|k: nat|
                k <= s.next() && k < s.payloads.len() && d == #[trigger] s.datagram(k);
            decode_inverts_encode(data_packet(k, s.payloads[k as int]));
        }
    }
    if t.delivered != s.delivered {
        let e = s.expected() as int;
        assert(s.payloads.take(e + 1) =~= s.payloads.take(e).push(s.payloads[e]));
    }
    assert(t.delivered =~= t.payloads.take(t.expected() as int));
    network_stays_sound(s, t, 0, 0);
}

proof fn run_keeps_inv(s: System, steps: Seq<Step>)
    requires
        s.is_initial(),
        can_run(s, steps),
    ensures
        run(s, steps).inv(),
        run(s, steps).payloads == s.payloads,
    decreases steps.len(),
{
    if steps.len() == 0 {
        assert(s.delivered =~= s.payloads.take(0));
    } else {
        run_keeps_inv(s, steps.drop_last());
        step_keeps_inv(run(s, steps.drop_last()), steps.last());
    }
}

/// Whatever the network loses, repeats, delays or reorders, the receiving
/// application is handed the payloads in the order in which they were sent, each
/// of them once and unchanged, with nothing in between. A send succeeds only
/// once its payload was taken: at most the last of the payloads that are
/// through is still being handed over, and at most one payload is taken whose
/// send is not through.
pub proof fn delivery_is_exactly_once_and_in_order(system: System, steps: Seq<Step>)
    requires
        system.is_initial(),
        can_run(system, steps),
    ensures
        ({
            let end = run(system, steps);
            &&& end.delivered.len() <= system.payloads.len()
            &&& end.delivered == system.payloads.take(end.delivered.len() as int)
            &&& end.completed <= end.delivered.len() + (if end.handing_over() {
                1nat
            } else {
                0nat
            }) <= end.completed + 1
        }),
{
    run_keeps_inv(system, steps);
}

/// Where nothing gets lost, a send succeeds at once: the receiving application
/// is handed exactly the payload, the receiver's acknowledgement ends the send,
/// and the two sides have moved on together.
pub proof fn clean_exchange_succeeds(
    sender: SocketView,
    receiver: SocketView,
    payload: Seq<u8>,
    sender_addr: PeerAddr,
    receiver_addr: PeerAddr,
    sent_ns: u64,
    read_ns: u64,
    ack: Vec<u8>,
    acked_ns: u64,
    estimate: RttEstimate,
    timeout_ms: u64,
)
    requires
        sender.peer(receiver_addr).next_seq_num <= u32::MAX,
        receiver.peer(sender_addr).expected_seq_num == sender.peer(receiver_addr).next_seq_num,
        // The clock is read before the wait has run out.
        time_between(sent_ns as nat, read_ns as nat) < sender.peer(receiver_addr).rto_ms * (
        NANOS_PER_MILLI as nat),
        // What comes back is what the receiver sent.
        ack@ == on_datagram(
            sender_addr,
            new_transmission(sender, payload, receiver_addr, sent_ns as nat).data,
        )->ack,
    ensures
        ({
            let (s0, tx) = begin_send(sender, payload, receiver_addr, sent_ns as nat);
            let events = seq![
                SendEvent::Sent { now_ns: sent_ns },
                SendEvent::Clock { now_ns: read_ns },
                SendEvent::Received { src: receiver_addr, datagram: ack, now_ns: acked_ns },
                SendEvent::Estimated { estimate, timeout_ms },
            ];
            let (s, done) = run_send(s0, tx, events);
            let (r, out) = on_arrival(receiver, Arrival { src: sender_addr, datagram: tx.data });
            &&& done.pending is Done
            &&& out == Some(Delivery { src: sender_addr, payload })
            &&& s.peer(receiver_addr).next_seq_num == r.peer(sender_addr).expected_seq_num
            &&& s.peer(receiver_addr) == sender.peer(receiver_addr).estimated(
                estimate,
                timeout_ms as nat,
            ).acknowledged()
        }),
{
    payload_survives_the_trip(
        sender,
        receiver,
        payload,
        sender_addr,
        receiver_addr,
        sent_ns as nat,
    );
    ack_satisfies_the_sender(sender, payload, sender_addr, receiver_addr, sent_ns as nat);
    let (s0, tx) = begin_send(sender, payload, receiver_addr, sent_ns as nat);
    let e1 = SendEvent::Sent { now_ns: sent_ns };
    let e2 = SendEvent::Clock { now_ns: read_ns };
    let e3 = SendEvent::Received { src: receiver_addr, datagram: ack, now_ns: acked_ns };
    let e4 = SendEvent::Estimated { estimate, timeout_ms };
    reveal_with_fuel(run_send, 5);
    assert(seq![e1, e2, e3, e4].drop_last() =~= seq![e1, e2, e3]);
    assert(seq![e1, e2, e3].drop_last() =~= seq![e1, e2]);
    assert(seq![e1, e2].drop_last() =~= seq![e1]);
    assert(seq![e1].drop_last() =~= Seq::<SendEvent>::empty());
}

} // verus!

use ironlink_rudp::addr::PeerAddr;
use ironlink_rudp::packet::{Packet, PacketType};
use ironlink_rudp::peer::RttEstimate;
use ironlink_rudp::socket::{
    ErrorKind, FailureKind, RUdpSocket, RecvEvent, RecvState, SendAction, SendError, SendEvent,
    Transmission, DEFAULT_MAX_TRANSMISSION_ATTEMPTS, HEADER_SIZE, MAX_PACKET_SIZE,
    MAX_PAYLOAD_SIZE,
};

const MILLI: u64 = 1_000_000;

fn local(port: u16) -> PeerAddr {
    PeerAddr::V4 { ip: 0x7F00_0001, port }
}

fn ack(seq_num: u32) -> Vec<u8> {
    Packet { seq_num, p_type: PacketType::Ack, payload: vec![] }.to_bytes()
}

fn data(seq_num: u32, payload: &[u8]) -> Vec<u8> {
    Packet { seq_num, p_type: PacketType::Data, payload: payload.to_vec() }.to_bytes()
}

fn step(socket: &mut RUdpSocket, tx: &mut Transmission, event: SendEvent) -> SendAction {
    assert!(socket.can_advance_send(tx, &event));
    socket.advance_send(tx, event);
    tx.pending()
}

fn estimated() -> SendEvent {
    let estimate = RttEstimate { srtt_bits: 10f64.to_bits(), rttvar_bits: 5f64.to_bits() };
    SendEvent::Estimated { estimate, timeout_ms: 300 }
}

/// Lets a datagram come in and, where it is due, its acknowledgement go out.
/// Returns the acknowledgement and what was delivered.
fn arrive(
    socket: &mut RUdpSocket,
    src: PeerAddr,
    datagram: &[u8],
) -> (Option<Vec<u8>>, Option<Vec<u8>>) {
    let event = RecvEvent::Received { src, datagram: datagram.to_vec() };
    assert!(socket.can_advance_recv(&RecvState::Listening, &event));
    let state = socket.recv_reliable(RecvState::Listening, event);
    let reply = match &state {
        RecvState::Acknowledging { due } => {
            assert_eq!(due.src(), src);
            due.ack().clone()
        }
        RecvState::Listening => return (None, None),
        _ => panic!("a datagram is acknowledged or ignored"),
    };
    assert!(socket.can_advance_recv(&state, &RecvEvent::AckSent));
    match socket.recv_reliable(state, RecvEvent::AckSent) {
        RecvState::Delivered { payload, src: from } => {
            assert_eq!(from, src);
            (Some(reply), Some(payload))
        }
        RecvState::Listening => (Some(reply), None),
        _ => panic!("a packet is delivered or dropped"),
    }
}

/// Sends one payload over a perfect network and returns what was delivered.
fn exchange(
    client: &mut RUdpSocket,
    client_addr: PeerAddr,
    server: &mut RUdpSocket,
    server_addr: PeerAddr,
    payload: &[u8],
) -> Option<Vec<u8>> {
    let mut tx = match client.send_reliable_to(payload, server_addr, 0) {
        Ok(tx) => tx,
        Err(error) => panic!("send: {:?}", error),
    };
    assert_eq!(tx.pending(), SendAction::Transmit);
    let (reply, delivered) = arrive(server, client_addr, tx.data());
    step(client, &mut tx, SendEvent::Sent { now_ns: 0 });
    let action = step(client, &mut tx, SendEvent::Clock { now_ns: 0 });
    assert!(matches!(action, SendAction::Listen { .. }));
    let datagram = reply.expect("acknowledged");
    let received = SendEvent::Received { src: server_addr, datagram, now_ns: 20 * MILLI };
    let action = step(client, &mut tx, received);
    assert!(matches!(action, SendAction::Smooth { rtt_ns, .. } if rtt_ns == 20 * MILLI));
    assert_eq!(step(client, &mut tx, estimated()), SendAction::Done);
    delivered
}

/// A full-size payload must arrive byte-for-byte identical.
#[test]
fn max_size_payload_survives_the_round_trip() {
    let payload: Vec<u8> = (0..MAX_PAYLOAD_SIZE).map(|i| (i % 251) as u8).collect();
    let expected = payload.clone();
    let mut server = RUdpSocket::new();
    let mut client = RUdpSocket::new();

    let received = exchange(&mut client, local(40_000), &mut server, local(9101), &payload)
        .expect("delivered");
    assert_eq!(received.len(), MAX_PAYLOAD_SIZE);
    assert_eq!(received, expected);
}

/// Payloads that cannot fit in one datagram are rejected rather than clipped.
#[test]
fn oversized_payload_is_rejected() {
    let mut client = RUdpSocket::new();
    let payload = vec![0u8; MAX_PAYLOAD_SIZE + 1];
    let err = match client.send_reliable(&payload, &[local(9102)], 0) {
        Ok(_) => panic!("oversized payload should error"),
        Err(err) => err,
    };
    assert_eq!(err.kind(), ErrorKind::InvalidInput);
    assert_eq!(err, SendError::PayloadTooLarge { len: 2044 });
    assert_eq!(client.rto_for(local(9102)), None);
    assert_eq!(client.stats.packets_sent, 0);
}

/// Successive timeouts must compound (500ms -> 1s -> 2s), not repeat at a fixed
/// multiple of the first.
#[test]
fn retransmission_backoff_is_exponential() {
    let peer = local(9103);
    let mut client = RUdpSocket::new();
    let mut tx = client.send_reliable(b"hello", &[peer], 0).ok().expect("send");
    let mut now_ns = 0;
    let mut gaps = Vec::new();
    for _ in 0..3 {
        let sent = now_ns;
        assert_eq!(step(&mut client, &mut tx, SendEvent::Sent { now_ns }), SendAction::ReadClock);
        match step(&mut client, &mut tx, SendEvent::Clock { now_ns }) {
            SendAction::Listen { timeout_ns } => now_ns += timeout_ns,
            other => panic!("expected a wait, got {:?}", other),
        }
        let nothing = SendEvent::ReceiveFailed { kind: FailureKind::WouldBlock };
        assert_eq!(step(&mut client, &mut tx, nothing), SendAction::Transmit);
        gaps.push((now_ns - sent) / MILLI);
    }
    step(&mut client, &mut tx, SendEvent::Sent { now_ns });
    step(&mut client, &mut tx, SendEvent::Clock { now_ns });
    let received = SendEvent::Received { src: peer, datagram: ack(0), now_ns };
    assert_eq!(step(&mut client, &mut tx, received), SendAction::Done);

    assert_eq!(gaps, vec![500, 1000, 2000]);
    assert_eq!(client.stats.retransmissions, 3);
    // The packet was retransmitted, so nothing was measured on it.
    assert_eq!(client.rto_for(peer), Some(2000));
}

/// Two clients each open at sequence 0. A single counter on the receiver would
/// drop the second client's traffic; per-peer state keeps both streams whole.
#[test]
fn two_clients_do_not_corrupt_each_others_streams() {
    let mut server = RUdpSocket::new();
    let mut received = Vec::new();
    for (name, port) in [("alice", 40_001), ("bob", 40_002)] {
        let mut client = RUdpSocket::new();
        for n in 0..2 {
            let text = format!("{}-{}", name, n);
            let payload =
                exchange(&mut client, local(port), &mut server, local(9104), text.as_bytes())
                    .expect("delivered");
            received.push(String::from_utf8(payload).expect("utf8"));
        }
    }
    received.sort();
    assert_eq!(received, vec!["alice-0", "alice-1", "bob-0", "bob-1"]);
}

/// A peer that never answers must surface an error instead of looping forever.
#[test]
fn unreachable_peer_gives_up_with_timed_out() {
    let peer = local(9105);
    let mut client = RUdpSocket::new();
    client.set_max_transmission_attempts(3);

    let mut tx = client.send_reliable(b"anyone there?", &[peer], 0).ok().expect("begins");
    let mut now_ns = 0;
    let err = loop {
        let event = match tx.pending() {
            SendAction::Transmit => SendEvent::Sent { now_ns },
            SendAction::ReadClock => SendEvent::Clock { now_ns },
            SendAction::Listen { timeout_ns } => {
                now_ns += timeout_ns;
                SendEvent::ReceiveFailed { kind: FailureKind::TimedOut }
            }
            SendAction::Failed { error } => break error,
            other => panic!("should give up, got {:?}", other),
        };
        step(&mut client, &mut tx, event);
    };

    assert_eq!(err.kind(), ErrorKind::TimedOut);
    assert_eq!(client.stats.packets_sent, 1);
    assert_eq!(client.stats.retransmissions, 2);
    assert_eq!(err, SendError::TimedOut { peer, seq_num: 0, attempts: 3 });
    assert_eq!(now_ns, 3500 * MILLI);
    assert_eq!(client.stats.total_bytes_sent, 3 * (HEADER_SIZE + 13));
    // A retry resumes from the same sequence number.
    let retry = client.send_reliable_to(b"anyone there?", peer, now_ns).ok().expect("begins");
    assert_eq!(retry.data(), tx.data());
}

/// An ACK from an address we did not send to must not satisfy the send.
#[test]
fn ack_from_a_third_party_is_ignored() {
    let target = local(9106);
    let spoofer = local(9107);
    let mut client = RUdpSocket::new();
    client.set_max_transmission_attempts(2);

    let mut tx = client.send_reliable(b"payload", &[target], 0).ok().expect("begins");
    let mut now_ns = 0;
    let err = loop {
        let event = match tx.pending() {
            SendAction::Transmit => SendEvent::Sent { now_ns },
            SendAction::ReadClock => SendEvent::Clock { now_ns },
            SendAction::Listen { .. } => {
                now_ns += 50 * MILLI;
                SendEvent::Received { src: spoofer, datagram: ack(0), now_ns }
            }
            SendAction::Failed { error } => break error,
            other => panic!("forged ACKs must not satisfy the send, got {:?}", other),
        };
        step(&mut client, &mut tx, event);
    };
    assert_eq!(err.kind(), ErrorKind::TimedOut);
    // The forged datagrams neither moved the deadlines nor caused more traffic.
    assert_eq!(now_ns, 1500 * MILLI);
    assert_eq!(client.stats.retransmissions, 1);
}

#[test]
fn limits_are_as_documented() {
    assert_eq!(MAX_PACKET_SIZE, 2048);
    assert_eq!(HEADER_SIZE, 5);
    assert_eq!(MAX_PAYLOAD_SIZE, 2043);
    assert_eq!(DEFAULT_MAX_TRANSMISSION_ATTEMPTS, 10);
}

#[test]
fn unresolved_target_is_rejected_before_the_payload_is_looked_at() {
    let mut client = RUdpSocket::new();
    let payload = vec![0u8; MAX_PAYLOAD_SIZE + 1];
    let err = client.send_reliable(&payload, &[], 0).err().expect("no address");
    assert_eq!(err, SendError::Unresolved);
    assert_eq!(err.kind(), ErrorKind::InvalidInput);
}

#[test]
fn the_first_address_is_used() {
    let mut client = RUdpSocket::new();
    let tx = client.send_reliable(b"x", &[local(1), local(2)], 0).ok().expect("begins");
    assert_eq!(tx.target(), local(1));
    assert_eq!(client.rto_for(local(1)), Some(500));
    assert_eq!(client.rto_for(local(2)), None);
}

#[test]
fn zero_attempts_count_as_one() {
    let mut client = RUdpSocket::new();
    client.set_max_transmission_attempts(0);
    let mut tx = client.send_reliable_to(b"x", local(1), 0).ok().expect("begins");
    step(&mut client, &mut tx, SendEvent::Sent { now_ns: 0 });
    let action = step(&mut client, &mut tx, SendEvent::Clock { now_ns: 500 * MILLI });
    let error = SendError::TimedOut { peer: local(1), seq_num: 0, attempts: 1 };
    assert_eq!(action, SendAction::Failed { error });
}

#[test]
fn ten_attempts_by_default() {
    let mut client = RUdpSocket::new();
    let mut tx = client.send_reliable_to(b"x", local(1), 0).ok().expect("begins");
    let mut now_ns = 0;
    while tx.pending() == SendAction::Transmit {
        step(&mut client, &mut tx, SendEvent::Sent { now_ns });
        now_ns += 3000 * MILLI;
        step(&mut client, &mut tx, SendEvent::Clock { now_ns });
    }
    let error = SendError::TimedOut { peer: local(1), seq_num: 0, attempts: 10 };
    assert_eq!(tx.pending(), SendAction::Failed { error });
    assert_eq!(client.stats.packets_sent, 1);
    assert_eq!(client.stats.retransmissions, 9);
}

#[test]
fn the_wait_is_what_is_left_of_the_timeout() {
    let mut client = RUdpSocket::new();
    let mut tx = client.send_reliable_to(b"x", local(1), 1).ok().expect("begins");
    step(&mut client, &mut tx, SendEvent::Sent { now_ns: 100 });
    let action = step(&mut client, &mut tx, SendEvent::Clock { now_ns: 107 });
    assert_eq!(action, SendAction::Listen { timeout_ns: 500 * MILLI - 7 });
    for junk in [vec![], vec![1, 2, 3], ack(1), data(0, b"data"), vec![0, 0, 0, 0, 9]] {
        let received = SendEvent::Received { src: local(1), datagram: junk, now_ns: 200 };
        assert_eq!(step(&mut client, &mut tx, received), SendAction::ReadClock);
        let action = step(&mut client, &mut tx, SendEvent::Clock { now_ns: 300 });
        assert_eq!(action, SendAction::Listen { timeout_ns: 500 * MILLI - 200 });
    }
}

#[test]
fn a_clean_round_trip_is_measured_and_a_second_one_smoothed() {
    let peer = local(1);
    let mut client = RUdpSocket::new();
    for (n, previous) in [(0u32, false), (1u32, true)] {
        let mut tx = client.send_reliable_to(b"x", peer, 1000).ok().expect("begins");
        step(&mut client, &mut tx, SendEvent::Sent { now_ns: 1100 });
        step(&mut client, &mut tx, SendEvent::Clock { now_ns: 1200 });
        let received = SendEvent::Received { src: peer, datagram: ack(n), now_ns: 5000 };
        match step(&mut client, &mut tx, received) {
            SendAction::Smooth { rtt_ns, previous: estimate } => {
                assert_eq!(rtt_ns, 4000);
                assert_eq!(estimate.is_some(), previous);
            }
            other => panic!("expected a measurement, got {:?}", other),
        }
        assert_eq!(step(&mut client, &mut tx, estimated()), SendAction::Done);
        assert_eq!(client.rto_for(peer), Some(300));
    }
}

#[test]
fn socket_failures_end_a_send_and_leave_no_trace() {
    let mut client = RUdpSocket::new();
    let mut tx = client.send_reliable_to(b"x", local(1), 0).ok().expect("begins");
    assert_eq!(step(&mut client, &mut tx, SendEvent::SocketFailed), SendAction::Abort);
    assert_eq!(client.stats.total_bytes_sent, 0);

    for event in [
        SendEvent::SocketFailed,
        SendEvent::ReceiveFailed { kind: FailureKind::Other },
    ] {
        let mut tx = client.send_reliable_to(b"x", local(1), 0).ok().expect("begins");
        step(&mut client, &mut tx, SendEvent::Sent { now_ns: 0 });
        step(&mut client, &mut tx, SendEvent::Clock { now_ns: 0 });
        assert_eq!(step(&mut client, &mut tx, event), SendAction::Abort);
        // Over is over.
        assert_eq!(step(&mut client, &mut tx, SendEvent::Sent { now_ns: 0 }), SendAction::Abort);
    }
    assert_eq!(client.rto_for(local(1)), Some(500));
}

#[test]
fn an_event_out_of_place_changes_nothing() {
    let mut client = RUdpSocket::new();
    let mut tx = client.send_reliable_to(b"x", local(1), 0).ok().expect("begins");
    assert_eq!(step(&mut client, &mut tx, estimated()), SendAction::Transmit);
    let received = SendEvent::Received { src: local(1), datagram: ack(0), now_ns: 0 };
    assert_eq!(step(&mut client, &mut tx, received), SendAction::Transmit);
    assert_eq!(client.stats.packets_sent, 0);
}

#[test]
fn full_counters_are_noticed() {
    let mut client = RUdpSocket::new();
    let mut tx = client.send_reliable_to(b"x", local(1), 0).ok().expect("begins");
    let sent = SendEvent::Sent { now_ns: 0 };
    assert!(client.can_advance_send(&tx, &sent));
    client.stats.total_bytes_sent = usize::MAX - 5;
    assert!(!client.can_advance_send(&tx, &sent));
    client.stats.total_bytes_sent = usize::MAX - 6;
    assert!(client.can_advance_send(&tx, &sent));
    client.stats.packets_sent = usize::MAX;
    assert!(!client.can_advance_send(&tx, &sent));
    client.stats.packets_sent = 0;
    client.stats.retransmissions = usize::MAX;
    step(&mut client, &mut tx, sent);
    assert_eq!(client.stats().total_bytes_sent, usize::MAX);
}

#[test]
fn duplicates_are_acknowledged_but_not_delivered() {
    let peer = local(1);
    let mut server = RUdpSocket::new();
    assert_eq!(arrive(&mut server, peer, &data(0, b"a")), (Some(ack(0)), Some(b"a".to_vec())));
    assert_eq!(arrive(&mut server, peer, &data(0, b"a")), (Some(ack(0)), None));
    assert_eq!(arrive(&mut server, peer, &data(1, b"b")), (Some(ack(1)), Some(b"b".to_vec())));
    assert_eq!(arrive(&mut server, peer, &data(0, b"a")), (Some(ack(0)), None));
}

#[test]
fn packets_ahead_of_the_stream_are_acknowledged_and_dropped() {
    let peer = local(1);
    let mut server = RUdpSocket::new();
    assert_eq!(arrive(&mut server, peer, &data(5, b"late")), (Some(ack(5)), None));
    assert_eq!(arrive(&mut server, peer, &data(0, b"a")), (Some(ack(0)), Some(b"a".to_vec())));
    // The peer has a record now, with the timeout of a new peer.
    assert_eq!(server.rto_for(peer), Some(500));
}

#[test]
fn anything_but_data_is_ignored() {
    let mut server = RUdpSocket::new();
    for junk in [vec![], vec![0, 0, 0, 0], ack(0), vec![0, 0, 0, 0, 0, 1], vec![0, 0, 0, 0, 3]] {
        assert_eq!(arrive(&mut server, local(1), &junk), (None, None));
    }
    assert_eq!(server.rto_for(local(1)), None);
}

#[test]
fn interleaved_streams_are_delivered_as_if_alone() {
    let (a, b) = (local(1), local(2));
    let arrivals = [
        (a, data(0, b"a0")),
        (b, data(1, b"b1")),
        (b, data(0, b"b0")),
        (a, data(0, b"a0")),
        (a, data(1, b"a1")),
        (b, data(1, b"b1")),
    ];
    let mut mixed = RUdpSocket::new();
    let mut from_b = Vec::new();
    for (src, datagram) in arrivals.iter() {
        let outcome = arrive(&mut mixed, *src, datagram);
        if *src == b {
            from_b.push(outcome);
        }
    }
    let mut alone = RUdpSocket::new();
    let mut only_b = Vec::new();
    for (src, datagram) in arrivals.iter() {
        if *src == b {
            only_b.push(arrive(&mut alone, *src, datagram));
        }
    }
    assert_eq!(from_b, only_b);
    let expected = vec![
        (Some(ack(1)), None),
        (Some(ack(0)), Some(b"b0".to_vec())),
        (Some(ack(1)), Some(b"b1".to_vec())),
    ];
    assert_eq!(from_b, expected);
}

#[test]
fn a_number_is_used_up_once_even_by_two_sends() {
    let (peer, other) = (local(1), local(2));
    let mut client = RUdpSocket::new();
    let mut first = client.send_reliable_to(b"one", peer, 0).ok().expect("begins");
    let mut second = client.send_reliable_to(b"two", peer, 0).ok().expect("begins");
    for tx in [&mut first, &mut second] {
        step(&mut client, tx, SendEvent::Sent { now_ns: 0 });
        step(&mut client, tx, SendEvent::Clock { now_ns: 0 });
        step(&mut client, tx, SendEvent::Received { src: peer, datagram: ack(0), now_ns: 0 });
        assert_eq!(step(&mut client, tx, estimated()), SendAction::Done);
        let next = client.send_reliable_to(b"next", peer, 0).ok().expect("begins");
        assert_eq!(*next.data(), data(1, b"next"));
    }
    // A send keeps its number while the socket is used otherwise.
    let mut open = client.send_reliable_to(b"open", peer, 0).ok().expect("begins");
    arrive(&mut client, peer, &data(0, b"hi"));
    let mut server = RUdpSocket::new();
    exchange(&mut client, local(9), &mut server, other, b"meanwhile");
    step(&mut client, &mut open, SendEvent::Sent { now_ns: 0 });
    step(&mut client, &mut open, SendEvent::Clock { now_ns: 0 });
    let received = SendEvent::Received { src: peer, datagram: ack(1), now_ns: 0 };
    step(&mut client, &mut open, received);
    assert_eq!(step(&mut client, &mut open, estimated()), SendAction::Done);
    let next = client.send_reliable_to(b"next", peer, 0).ok().expect("begins");
    assert_eq!(*next.data(), data(2, b"next"));
}

#[test]
fn an_acknowledgement_is_a_bare_header_for_the_sender() {
    let mut server = RUdpSocket::new();
    let event = RecvEvent::Received { src: local(7), datagram: data(0x0102_0304, b"x") };
    match server.recv_reliable(RecvState::Listening, event) {
        RecvState::Acknowledging { due } => {
            assert_eq!(due.src(), local(7));
            assert_eq!(*due.ack(), vec![1, 2, 3, 4, 2]);
        }
        _ => panic!("data is acknowledged"),
    }
}

#[test]
fn a_failed_acknowledgement_delivers_nothing() {
    let peer = local(1);
    let mut server = RUdpSocket::new();
    let event = RecvEvent::Received { src: peer, datagram: data(0, b"a") };
    let state = server.recv_reliable(RecvState::Listening, event);
    let state = server.recv_reliable(state, RecvEvent::SocketFailed);
    assert!(matches!(state, RecvState::Aborted));
    assert_eq!(server.rto_for(peer), None);
    // The packet can be received again.
    assert_eq!(arrive(&mut server, peer, &data(0, b"a")), (Some(ack(0)), Some(b"a".to_vec())));
}

#[test]
fn a_receive_outlasts_read_timeouts_only() {
    let mut server = RUdpSocket::new();
    for kind in [FailureKind::WouldBlock, FailureKind::TimedOut] {
        let state = server.recv_reliable(RecvState::Listening, RecvEvent::ReceiveFailed { kind });
        assert!(matches!(state, RecvState::Listening));
    }
    let kind = FailureKind::Other;
    let state = server.recv_reliable(RecvState::Listening, RecvEvent::ReceiveFailed { kind });
    assert!(matches!(state, RecvState::Aborted));
}

/// Every datagram and every acknowledgement is lost once, and then doubled.
#[test]
fn a_lossy_network_delivers_each_payload_once_and_in_order() {
    let (client_addr, server_addr) = (local(1), local(2));
    let mut client = RUdpSocket::new();
    let mut server = RUdpSocket::new();
    let mut delivered = Vec::new();
    let mut stale: Vec<Vec<u8>> = Vec::new();
    for n in 0u8..20 {
        let mut tx = client.send_reliable_to(&[n], server_addr, 0).ok().expect("begins");
        for attempt in 0..3 {
            assert_eq!(tx.pending(), SendAction::Transmit);
            step(&mut client, &mut tx, SendEvent::Sent { now_ns: 0 });
            step(&mut client, &mut tx, SendEvent::Clock { now_ns: 0 });
            if attempt == 0 {
                // The datagram is lost; an old one turns up instead.
                for old in stale.iter() {
                    assert_eq!(arrive(&mut server, client_addr, old).1, None);
                }
            } else {
                for _ in 0..2 {
                    let (reply, payload) = arrive(&mut server, client_addr, tx.data());
                    assert_eq!(reply, Some(ack(n as u32)));
                    delivered.extend(payload);
                }
            }
            let event = if attempt < 2 {
                // The acknowledgement is lost.
                SendEvent::ReceiveFailed { kind: FailureKind::WouldBlock }
            } else {
                SendEvent::Received { src: server_addr, datagram: ack(n as u32), now_ns: 0 }
            };
            step(&mut client, &mut tx, event);
        }
        assert_eq!(tx.pending(), SendAction::Done);
        stale.push(tx.data().clone());
    }
    // Per payload one acknowledgement for each of four copies, and one for each
    // of the old datagrams.
    assert_eq!(server.stats.total_bytes_sent, HEADER_SIZE * (20 * 4 + 19 * 20 / 2));
    let expected: Vec<Vec<u8>> = (0u8..20).map(|n| vec![n]).collect();
    assert_eq!(delivered, expected);
    assert_eq!(client.stats.packets_sent, 20);
    assert_eq!(client.stats.retransmissions, 40);
}

#[test]
fn the_bytes_of_acknowledgements_are_counted() {
    let peer = local(1);
    let mut server = RUdpSocket::new();
    arrive(&mut server, peer, &data(0, b"a"));
    assert_eq!(server.stats.total_bytes_sent, 5);
    arrive(&mut server, peer, &data(0, b"a"));
    arrive(&mut server, peer, &data(7, b"ahead"));
    assert_eq!(server.stats.total_bytes_sent, 15);
    // What is not acknowledged costs nothing, and neither does a failed attempt.
    arrive(&mut server, peer, &ack(3));
    let event = RecvEvent::Received { src: peer, datagram: data(1, b"b") };
    let state = server.recv_reliable(RecvState::Listening, event);
    assert_eq!(server.stats.total_bytes_sent, 15);
    server.recv_reliable(state, RecvEvent::SocketFailed);
    assert_eq!(server.stats.total_bytes_sent, 15);
    // Acknowledgements are neither packets nor retransmissions.
    assert_eq!(server.stats.packets_sent, 0);
    assert_eq!(server.stats.retransmissions, 0);
}

#[test]
fn a_full_byte_counter_is_noticed_when_acknowledging() {
    let mut server = RUdpSocket::new();
    let event = RecvEvent::Received { src: local(1), datagram: data(0, b"a") };
    let state = server.recv_reliable(RecvState::Listening, event);
    server.stats.total_bytes_sent = usize::MAX - 4;
    assert!(!server.can_advance_recv(&state, &RecvEvent::AckSent));
    assert!(server.can_advance_recv(&state, &RecvEvent::SocketFailed));
    server.stats.total_bytes_sent = usize::MAX - 5;
    assert!(server.can_advance_recv(&state, &RecvEvent::AckSent));
    server.recv_reliable(state, RecvEvent::AckSent);
    assert_eq!(server.stats.total_bytes_sent, usize::MAX);
}

/// Runs a send that nobody answers, with a number of stray datagrams in each
/// wait. Returns the attempts' waits in milliseconds and the error.
fn unanswered(strays: u64) -> (Vec<u64>, SendError, usize) {
    let mut client = RUdpSocket::new();
    client.set_max_transmission_attempts(4);
    let mut tx = client.send_reliable_to(b"x", local(1), 0).ok().expect("begins");
    let mut now_ns = 0;
    let mut waits = Vec::new();
    loop {
        let began = now_ns;
        step(&mut client, &mut tx, SendEvent::Sent { now_ns });
        step(&mut client, &mut tx, SendEvent::Clock { now_ns });
        for n in 0..strays {
            now_ns += 1 + n;
            let stray = SendEvent::Received { src: local(2), datagram: ack(0), now_ns };
            step(&mut client, &mut tx, stray);
            step(&mut client, &mut tx, SendEvent::Clock { now_ns });
        }
        match tx.pending() {
            SendAction::Listen { timeout_ns } => now_ns += timeout_ns,
            other => panic!("expected a wait, got {:?}", other),
        }
        step(&mut client, &mut tx, SendEvent::ReceiveFailed { kind: FailureKind::TimedOut });
        waits.push((now_ns - began) / MILLI);
        if let SendAction::Failed { error } = tx.pending() {
            return (waits, error, client.stats.total_bytes_sent);
        }
    }
}

#[test]
fn stray_datagrams_do_not_change_a_send() {
    let quiet = unanswered(0);
    assert_eq!(quiet.0, vec![500, 1000, 2000, 2000]);
    assert_eq!(quiet.1, SendError::TimedOut { peer: local(1), seq_num: 0, attempts: 4 });
    assert_eq!(quiet.2, 4 * 6);
    assert_eq!(unanswered(1), quiet);
    assert_eq!(unanswered(25), quiet);
}

#[test]
fn sends_are_numbered_by_the_successes_before_them() {
    let (a, b) = (local(1), local(2));
    let mut client = RUdpSocket::new();
    let mut server = RUdpSocket::new();
    exchange(&mut client, local(9), &mut server, a, b"one");
    exchange(&mut client, local(9), &mut server, a, b"two");
    // A send that fails, one that is refused and what is received do not count.
    let mut tx = client.send_reliable_to(b"lost", a, 0).ok().expect("begins");
    step(&mut client, &mut tx, SendEvent::SocketFailed);
    assert!(client.send_reliable_to(&[0; MAX_PAYLOAD_SIZE + 1], a, 0).is_err());
    arrive(&mut client, a, &data(0, b"hi"));
    let tx = client.send_reliable_to(b"three", a, 0).ok().expect("begins");
    assert_eq!(*tx.data(), data(2, b"three"));
    let tx = client.send_reliable_to(b"first", b, 0).ok().expect("begins");
    assert_eq!(*tx.data(), data(0, b"first"));
}

#[test]
fn records_are_kept_of_the_peers_met() {
    let mut socket = RUdpSocket::new();
    // Refused, ignored or not acknowledged: no record.
    assert!(socket.send_reliable_to(&[0; MAX_PAYLOAD_SIZE + 1], local(1), 0).is_err());
    arrive(&mut socket, local(2), &ack(0));
    let event = RecvEvent::Received { src: local(3), datagram: data(0, b"a") };
    let state = socket.recv_reliable(RecvState::Listening, event);
    socket.recv_reliable(state, RecvEvent::SocketFailed);
    for port in 1..4 {
        assert_eq!(socket.rto_for(local(port)), None);
    }
    // Sent to, answered or not, or acknowledged, in order or not: a record.
    let mut tx = socket.send_reliable_to(b"x", local(1), 0).ok().expect("begins");
    step(&mut socket, &mut tx, SendEvent::SocketFailed);
    arrive(&mut socket, local(2), &data(9, b"ahead"));
    arrive(&mut socket, local(3), &data(0, b"a"));
    for port in 1..4 {
        assert_eq!(socket.rto_for(local(port)), Some(500));
    }
}

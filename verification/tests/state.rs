use ironlink_rudp::addr::PeerAddr;
use ironlink_rudp::peer::{PeerState, RttEstimate, INITIAL_RTO_MS, MAX_RTO_MS, MIN_RTO_MS};
use ironlink_rudp::report::{is_milestone, is_printable, Report, Tally};
use ironlink_rudp::socket::SocketStats;
use ironlink_rudp::table::AddrTable;

fn estimate(srtt: f64, rttvar: f64) -> RttEstimate {
    RttEstimate { srtt_bits: srtt.to_bits(), rttvar_bits: rttvar.to_bits() }
}

#[test]
fn a_new_peer_waits_half_a_second() {
    let peer = PeerState::default();
    assert_eq!(peer.next_seq_num(), 0);
    assert_eq!(peer.expected_seq_num(), 0);
    assert_eq!(peer.rto_ms(), 500);
    assert_eq!(INITIAL_RTO_MS, 500);
    assert!(peer.estimate().is_unmeasured());
}

#[test]
fn backoff_doubles_up_to_two_seconds() {
    let mut peer = PeerState::default();
    assert_eq!(peer.back_off(), 1000);
    assert_eq!(peer.back_off(), 2000);
    assert_eq!(peer.back_off(), 2000);
    assert_eq!(peer.rto_ms(), 2000);
    peer.update_rto(estimate(20.0, 10.0), 60);
    assert_eq!(peer.back_off(), 120);
    assert_eq!(peer.back_off(), 240);
}

#[test]
fn a_measurement_sets_the_timeout_within_the_band() {
    let mut peer = PeerState::default();
    assert_eq!(peer.update_rto(estimate(0.1, 0.05), 0), MIN_RTO_MS);
    assert_eq!(peer.update_rto(estimate(20.0, 7.5), 50), 50);
    assert_eq!(peer.update_rto(estimate(100.0, 50.0), 300), 300);
    assert_eq!(peer.update_rto(estimate(900.0, 300.0), 2001), MAX_RTO_MS);
    assert_eq!(peer.update_rto(estimate(1e300, 0.0), u64::MAX), 2000);
    assert_eq!(peer.estimate(), estimate(1e300, 0.0));
}

#[test]
fn zero_means_unmeasured() {
    assert!(estimate(0.0, 3.0).is_unmeasured());
    assert!(estimate(-0.0, 3.0).is_unmeasured());
    assert!(!estimate(0.022, 0.0).is_unmeasured());
    assert!(!estimate(f64::MIN_POSITIVE, 0.0).is_unmeasured());
}

#[test]
fn the_table_tells_addresses_apart() {
    let v4 = PeerAddr::V4 { ip: 1, port: 2 };
    let v6 = PeerAddr::V6 { ip6: 1, port: 2, flowinfo: 0, scope_id: 0 };
    let scoped = PeerAddr::V6 { ip6: 1, port: 2, flowinfo: 0, scope_id: 1 };
    let mut table: AddrTable<u64> = AddrTable::new();
    table.set(v4, 40);
    table.set(v6, 60);
    table.set(v4, 41);
    assert_eq!(table.get(v4), Some(41));
    assert_eq!(table.get(v6), Some(60));
    assert_eq!(table.get(scoped), None);
    assert_ne!(v4.key(), v6.key());
}

#[test]
fn counters_split_packets_and_retransmissions() {
    let mut stats = SocketStats::default();
    assert_eq!((stats.packets_sent, stats.retransmissions, stats.total_bytes_sent), (0, 0, 0));
    stats.record_transmission(10, 1);
    stats.record_transmission(10, 2);
    stats.record_transmission(10, 3);
    assert_eq!((stats.packets_sent, stats.retransmissions, stats.total_bytes_sent), (1, 2, 30));
    stats.record_acknowledgement(5);
    assert_eq!((stats.packets_sent, stats.retransmissions, stats.total_bytes_sent), (1, 2, 35));
}

#[test]
fn elapsed_time_does_not_run_backwards() {
    let stats = SocketStats::default();
    let first = stats.elapsed();
    let mut second = stats.elapsed();
    let mut tries = 0;
    while second == first && tries < 10_000_000 {
        second = stats.elapsed();
        tries += 1;
    }
    assert!(second > first);
    assert!(stats.started.elapsed() >= second);
}

#[test]
fn text_is_printed_and_the_rest_is_counted() {
    let a = PeerAddr::V4 { ip: 0x7F00_0001, port: 9000 };
    let b = PeerAddr::V4 { ip: 0x7F00_0001, port: 9001 };
    let mut tally = Tally::new();
    assert_eq!(tally.record(a, b"hello, world\n"), Report::Text);
    assert_eq!(tally.record(b, b""), Report::Text);
    for _ in 1..999 {
        assert_eq!(tally.record(a, &[0, 1]), Report::Quiet);
    }
    assert_eq!(
        tally.record(a, &[0, 1]),
        Report::Progress { packets: 1000, bytes: 13 + 999 * 2 }
    );
    assert_eq!(tally.traffic(a).packets, 1000);
    assert_eq!(tally.traffic(b).packets, 1);
    assert_eq!(tally.traffic(b).bytes, 0);
}

#[test]
fn printable_means_graphic_or_blank_ascii() {
    for b in 0u8..=255 {
        let expected = b.is_ascii_graphic() || b.is_ascii_whitespace();
        assert_eq!(is_printable(&[b'x', b]), expected);
    }
    assert!(is_milestone(0) && is_milestone(5000) && !is_milestone(999));
}

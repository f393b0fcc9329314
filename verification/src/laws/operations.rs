//! What a caller gets from each operation, in plain values.

use crate::addr::PeerAddr;
use crate::laws::sending::begin_send;
use crate::laws::wire::{a_datagram_is_read_in_order, a_packet_is_written_in_order};
use crate::packet::{decode_inverts_encode, Packet};
use crate::peer::{PeerState, RttEstimate};
use crate::report::{is_milestone, is_printable, Report, Tally};
use crate::socket::receive::{recv_fits, recv_next, RecvEvent, RecvState};
use crate::socket::send::{
    send_fits, send_next, ErrorKind, SendError, SendEvent, Transmission,
};
use crate::socket::RUdpSocket;
use crate::stats::SocketStats;
use vstd::prelude::*;

verus! {

/// A packet becomes its sequence number, most significant byte first, its type
/// byte and its payload.
pub proof fn packets_become_bytes(packet: Packet, bytes: Vec<u8>)
    requires
        call_ensures(Packet::to_bytes, (&packet,), bytes),
    ensures
        bytes@.len() == 5 + packet.payload@.len(),
        bytes@[0] * 0x100_0000 + bytes@[1] * 0x1_0000 + bytes@[2] * 0x100 + bytes@[3]
            == packet.seq_num,
        packet.p_type is Data ==> bytes@[4] == 1,
        packet.p_type is Ack ==> bytes@[4] == 2,
        packet.p_type is Unknown ==> bytes@[4] == 3,
        bytes@.subrange(5, bytes@.len() as int) == packet.payload@,
{
    a_packet_is_written_in_order(packet@);
}

/// Five bytes or more are read as a packet, and fewer are not.
pub proof fn bytes_become_packets(bytes: &[u8], read: Option<Packet>)
    requires
        call_ensures(Packet::from_bytes, (bytes,), read),
    ensures
        read is Some <==> bytes@.len() >= 5,
        read matches Some(packet) ==> {
            &&& packet.seq_num == bytes@[0] * 0x100_0000 + bytes@[1] * 0x1_0000 + bytes@[2]
                * 0x100 + bytes@[3]
            &&& packet.p_type is Data <==> bytes@[4] == 1
            &&& packet.p_type is Ack <==> bytes@[4] == 2
            &&& packet.payload@ == bytes@.subrange(5, bytes@.len() as int)
        },
{
    a_datagram_is_read_in_order(bytes@);
}

/// What is read back from the bytes of a packet is that packet.
pub proof fn bytes_bring_a_packet_back(
    packet: Packet,
    bytes: Vec<u8>,
    datagram: &[u8],
    read: Option<Packet>,
)
    requires
        call_ensures(Packet::to_bytes, (&packet,), bytes),
        datagram@ == bytes@,
        call_ensures(Packet::from_bytes, (datagram,), read),
    ensures
        read matches Some(again) && {
            &&& again.seq_num == packet.seq_num
            &&& again.p_type == packet.p_type
            &&& again.payload@ == packet.payload@
        },
{
    decode_inverts_encode(packet@);
}

/// A socket just opened has sent nothing, knows nobody and transmits a packet at
/// most ten times.
pub proof fn a_socket_opens_empty(socket: RUdpSocket, peer: PeerAddr)
    requires
        call_ensures(RUdpSocket::new, (), socket),
    ensures
        !socket@.peers.contains_key(peer),
        socket@.max_attempts == 10,
        socket@.stats.packets_sent == 0,
        socket@.stats.retransmissions == 0,
        socket@.stats.total_bytes_sent == 0,
{
}

/// The attempt limit is the number that was given, or one where that is zero.
pub proof fn a_limit_is_set(socket: &mut RUdpSocket, attempts: u32)
    requires
        call_ensures(RUdpSocket::set_max_transmission_attempts, (socket, attempts), ()),
    ensures
        attempts >= 1 ==> final(socket)@.max_attempts == attempts,
        attempts == 0 ==> final(socket)@.max_attempts == 1,
        final(socket)@.peers == old(socket)@.peers,
        final(socket)@.stats == old(socket)@.stats,
{
}

/// The timeout of a peer can be asked for exactly if the peer has a record, and is
/// the one on record.
pub proof fn the_timeout_on_record_is_told(
    socket: RUdpSocket,
    peer: PeerAddr,
    rto_ms: Option<u64>,
)
    requires
        call_ensures(RUdpSocket::rto_for, (&socket, peer), rto_ms),
    ensures
        rto_ms is Some <==> socket@.peers.contains_key(peer),
        rto_ms matches Some(ms) ==> ms == socket@.peers[peer].rto_ms && 50 <= ms <= 2000,
{
}

/// A payload of more than 2043 bytes is refused with its length, and the socket
/// stays as it is. Any other payload begins a send to the target.
pub proof fn only_long_payloads_are_refused(
    socket: &mut RUdpSocket,
    payload: &[u8],
    target: PeerAddr,
    now_ns: u64,
    res: Result<Transmission, SendError>,
)
    requires
        payload@.len() <= usize::MAX,
        call_ensures(RUdpSocket::send_reliable_to, (socket, payload, target, now_ns), res),
    ensures
        payload@.len() > 2043 ==> {
            &&& final(socket)@ == old(socket)@
            &&& res matches Err(SendError::PayloadTooLarge { len })
            &&& len == payload@.len()
        },
        payload@.len() <= 2043 ==> res is Ok && (final(socket)@, res->Ok_0@) == begin_send(
            old(socket)@,
            payload@,
            target,
            now_ns as nat,
        ),
{
}

/// A name that stands for no address is refused before the payload is looked at.
/// Otherwise the payload goes to the first address that the name stands for, and
/// to no other.
pub proof fn the_first_address_is_sent_to(
    socket: &mut RUdpSocket,
    payload: &[u8],
    resolved: &[PeerAddr],
    now_ns: u64,
    res: Result<Transmission, SendError>,
)
    requires
        payload@.len() <= usize::MAX,
        call_ensures(RUdpSocket::send_reliable, (socket, payload, resolved, now_ns), res),
    ensures
        resolved@.len() == 0 ==> res is Err && res->Err_0 is Unresolved,
        resolved@.len() > 0 && payload@.len() > 2043 ==> {
            &&& res matches Err(SendError::PayloadTooLarge { len })
            &&& len == payload@.len()
        },
        res is Err ==> final(socket)@ == old(socket)@,
        resolved@.len() > 0 && payload@.len() <= 2043 ==> res is Ok && (
            final(socket)@,
            res->Ok_0@,
        ) == begin_send(old(socket)@, payload@, resolved@[0], now_ns as nat),
{
}

/// A step of a send takes the socket and the send where the protocol takes them.
pub proof fn a_send_advances_by_the_protocol(
    socket: &mut RUdpSocket,
    tx: &mut Transmission,
    event: SendEvent,
)
    requires
        call_ensures(RUdpSocket::advance_send, (socket, tx, event), ()),
    ensures
        (final(socket)@, final(tx)@) == send_next(old(socket)@, old(tx)@, event),
{
}

/// Whether a step of a send is possible is told as it is.
pub proof fn room_for_a_send_step_is_told(
    socket: RUdpSocket,
    tx: Transmission,
    event: SendEvent,
    fits: bool,
)
    requires
        call_ensures(RUdpSocket::can_advance_send, (&socket, &tx, &event), fits),
    ensures
        fits <==> send_fits(socket@, tx@, event),
{
}

/// A step of a receive takes the socket and the receive where the protocol takes
/// them.
pub proof fn a_receive_advances_by_the_protocol(
    socket: &mut RUdpSocket,
    state: RecvState,
    event: RecvEvent,
    next: RecvState,
)
    requires
        call_ensures(RUdpSocket::recv_reliable, (socket, state, event), next),
    ensures
        (final(socket)@, next@) == recv_next(old(socket)@, state@, event),
{
}

/// Whether a step of a receive is possible is told as it is.
pub proof fn room_for_a_receive_step_is_told(
    socket: RUdpSocket,
    state: RecvState,
    event: RecvEvent,
    fits: bool,
)
    requires
        call_ensures(RUdpSocket::can_advance_recv, (&socket, &state, &event), fits),
    ensures
        fits <==> recv_fits(socket@, state@, event),
{
}

/// A send that ran out of attempts is a timeout; a name without an address and a
/// payload that is too long are invalid input.
pub proof fn failures_are_classed(error: SendError, kind: ErrorKind)
    requires
        call_ensures(SendError::kind, (&error,), kind),
    ensures
        error is TimedOut ==> kind is TimedOut,
        error is Unresolved || error is PayloadTooLarge ==> kind is InvalidInput,
{
}

/// A new estimate is kept as it is given, and the timeout is what comes with it
/// within 50 to 2000 milliseconds. That is what is returned.
pub proof fn an_estimate_sets_the_timeout(
    peer: &mut PeerState,
    estimate: RttEstimate,
    timeout_ms: u64,
    rto_ms: u64,
)
    requires
        call_ensures(PeerState::update_rto, (peer, estimate, timeout_ms), rto_ms),
    ensures
        50 <= timeout_ms <= 2000 ==> rto_ms == timeout_ms,
        timeout_ms < 50 ==> rto_ms == 50,
        timeout_ms > 2000 ==> rto_ms == 2000,
        final(peer)@.rto_ms == rto_ms,
        final(peer)@.estimate.srtt_bits == estimate.srtt_bits,
        final(peer)@.estimate.rttvar_bits == estimate.rttvar_bits,
        final(peer)@.next_seq_num == old(peer)@.next_seq_num,
        final(peer)@.expected_seq_num == old(peer)@.expected_seq_num,
{
}

/// Backing off doubles the timeout up to 2000 milliseconds, returns it, and
/// changes nothing else.
pub proof fn backing_off_doubles_the_timeout(peer: &mut PeerState, rto_ms: u64)
    requires
        call_ensures(PeerState::back_off, (peer,), rto_ms),
    ensures
        old(peer)@.rto_ms <= 1000 ==> rto_ms == old(peer)@.rto_ms + old(peer)@.rto_ms,
        old(peer)@.rto_ms > 1000 ==> rto_ms == 2000,
        final(peer)@.rto_ms == rto_ms,
        final(peer)@.estimate == old(peer)@.estimate,
        final(peer)@.next_seq_num == old(peer)@.next_seq_num,
        final(peer)@.expected_seq_num == old(peer)@.expected_seq_num,
{
}

/// A datagram counts with all of its bytes, as a packet if it is the first of its
/// packet and as a retransmission otherwise.
pub proof fn a_datagram_is_counted(stats: &mut SocketStats, len: usize, attempt: u32)
    requires
        call_ensures(SocketStats::record_transmission, (stats, len, attempt), ()),
    ensures
        final(stats).total_bytes_sent == old(stats).total_bytes_sent + len,
        attempt <= 1 ==> final(stats).packets_sent == old(stats).packets_sent + 1
            && final(stats).retransmissions == old(stats).retransmissions,
        attempt > 1 ==> final(stats).packets_sent == old(stats).packets_sent
            && final(stats).retransmissions == old(stats).retransmissions + 1,
        final(stats).started == old(stats).started,
{
}

/// An acknowledgement counts with its bytes and in no other way.
pub proof fn an_acknowledgement_is_counted(stats: &mut SocketStats, len: usize)
    requires
        call_ensures(SocketStats::record_acknowledgement, (stats, len), ()),
    ensures
        final(stats).total_bytes_sent == old(stats).total_bytes_sent + len,
        final(stats).packets_sent == old(stats).packets_sent,
        final(stats).retransmissions == old(stats).retransmissions,
        final(stats).started == old(stats).started,
{
}

/// A payload can be printed exactly if each of its bytes is a visible ASCII
/// character, a space, a tab, a line feed, a form feed or a carriage return.
pub proof fn text_is_told_from_other_payloads(data: &[u8], printable: bool)
    requires
        call_ensures(is_printable, (data,), printable),
    ensures
        printable <==> forall|i: int|
            0 <= i < data@.len() ==> 33 <= #[trigger] data@[i] <= 126 || data@[i] == 32 || data@[i]
                == 9 || data@[i] == 10 || data@[i] == 12 || data@[i] == 13,
{
}

/// A line is due exactly at the multiples of a thousand, and so at one of any
/// thousand counts in a row.
pub proof fn milestones_are_a_thousand_apart(packets: usize, due: bool)
    requires
        call_ensures(is_milestone, (packets,), due),
    ensures
        due <==> packets % 1000 == 0,
        due <==> exists|k: nat| packets == #[trigger] (k * 1000),
{
    let k = (packets / 1000) as nat;
    if packets % 1000 == 0 {
        assert(packets == k * 1000);
    }
}

/// A payload adds one packet and its bytes to the tally of its sender and to no
/// other. It is reported as text if it can be printed, with the new counts if the
/// packets have come to a multiple of a thousand, and not at all otherwise.
pub proof fn a_payload_is_tallied(
    tally: &mut Tally,
    src: PeerAddr,
    data: &[u8],
    report: Report,
    printable: bool,
    other: PeerAddr,
)
    requires
        old(tally)@.contains_key(src) ==> old(tally)@[src].packets < usize::MAX && old(
            tally,
        )@[src].bytes + data@.len() <= usize::MAX,
        call_ensures(Tally::record, (tally, src, data), report),
        call_ensures(is_printable, (data,), printable),
    ensures
        ({
            let known = old(tally)@.contains_key(src);
            let packets = if known {
                old(tally)@[src].packets + 1
            } else {
                1
            };
            let bytes = if known {
                old(tally)@[src].bytes + data@.len()
            } else {
                data@.len()
            };
            &&& final(tally)@.contains_key(src)
            &&& final(tally)@[src].packets == packets
            &&& final(tally)@[src].bytes == bytes
            &&& other != src ==> {
                &&& final(tally)@.contains_key(other) <==> old(tally)@.contains_key(other)
                &&& old(tally)@.contains_key(other) ==> final(tally)@[other] == old(tally)@[other]
            }
            &&& report is Text <==> printable
            &&& report is Progress <==> !printable && packets % 1000 == 0
            &&& report matches Report::Progress { packets: p, bytes: b } ==> p == packets && b
                == bytes
        }),
{
}

} // verus!

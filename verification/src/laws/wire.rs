//! What a datagram looks like, byte by byte.

use crate::packet::{
    ack_packet, be_bytes, be_bytes_round_trip, be_value, decode, encode, Packet, PacketType,
    PacketView,
};
use vstd::prelude::*;
use vstd::std_specs::convert::FromSpec;

verus! {

/// A packet is written as its sequence number, most significant byte first, the
/// type byte (1 for data, 2 for an acknowledgement) and the payload, and nothing
/// else.
pub proof fn a_packet_is_written_in_order(p: PacketView)
    requires
        p.seq_num <= u32::MAX,
    ensures
        ({
            let d = encode(p);
            &&& d.len() == 5 + p.payload.len()
            &&& d[0] * 0x100_0000 + d[1] * 0x1_0000 + d[2] * 0x100 + d[3] == p.seq_num
            &&& p.p_type is Data ==> d[4] == 1
            &&& p.p_type is Ack ==> d[4] == 2
            &&& p.p_type is Unknown ==> d[4] == 3
            &&& d.subrange(5, d.len() as int) == p.payload
        }),
{
    be_bytes_round_trip(p.seq_num);
    let d = encode(p);
    assert(d.subrange(5, d.len() as int) =~= p.payload);
}

/// A datagram is read as a packet exactly if it has at least five bytes. The
/// first four are the sequence number, most significant byte first, the fifth is
/// the type, and all the others are the payload.
pub proof fn a_datagram_is_read_in_order(d: Seq<u8>)
    ensures
        decode(d) is Some <==> d.len() >= 5,
        decode(d) matches Some(p) ==> {
            &&& p.seq_num == d[0] * 0x100_0000 + d[1] * 0x1_0000 + d[2] * 0x100 + d[3]
            &&& p.p_type is Data <==> d[4] == 1
            &&& p.p_type is Ack <==> d[4] == 2
            &&& p.payload == d.subrange(5, d.len() as int)
        },
{
    if d.len() >= 5 {
        assert(d.skip(5) =~= d.subrange(5, d.len() as int));
    }
}

/// The acknowledgement of what a datagram carries has five bytes: the first four
/// of the datagram, unchanged, and then 2.
pub proof fn an_acknowledgement_repeats_the_number(d: Seq<u8>)
    requires
        d.len() >= 5,
    ensures
        encode(ack_packet(decode(d)->Some_0.seq_num)) == seq![d[0], d[1], d[2], d[3], 2u8],
{
    let n = be_value(d);
    let (a, b, c) = (d[0] as nat, d[1] as nat, d[2] as nat);
    assert(n / 0x100_0000 == a);
    assert(n / 0x1_0000 == a * 0x100 + b);
    assert(n / 0x100 == a * 0x1_0000 + b * 0x100 + c);
    assert(be_bytes(n) =~= seq![d[0], d[1], d[2], d[3]]);
    assert(encode(ack_packet(n)) =~= seq![d[0], d[1], d[2], d[3], 2u8]);
}

/// A packet says what its fields hold.
pub proof fn a_packet_is_what_its_fields_hold(packet: Packet)
    ensures
        packet@.seq_num == packet.seq_num,
        packet@.p_type == packet.p_type,
        packet@.payload == packet.payload@,
{
}

/// A type byte stands for data if it is 1, for an acknowledgement if it is 2, and
/// for nothing known otherwise.
pub proof fn type_bytes_are_assigned(code: u8)
    ensures
        ({
            let p_type = <PacketType as FromSpec<u8>>::from_spec(code);
            &&& <PacketType as FromSpec<u8>>::obeys_from_spec()
            &&& p_type is Data <==> code == 1
            &&& p_type is Ack <==> code == 2
            &&& p_type is Unknown <==> code != 1 && code != 2
        }),
{
}

} // verus!

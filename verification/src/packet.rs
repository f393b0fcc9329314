//! The wire format: `[sequence number (4, big-endian)] [type (1)] [payload]`.

use vstd::prelude::*;
use vstd::slice::{slice_subrange, slice_to_vec};
use vstd::std_specs::convert::FromSpecImpl;

verus! {

/// `[SeqNum (4)] [Type (1)]`
pub const HEADER_SIZE: usize = 5;

#[derive(Debug, PartialEq, Eq, Structural, Clone, Copy)]
pub enum PacketType {
    Data,
    Ack,
    Unknown,
}

/// The type byte that stands for a packet type on the wire.
pub open spec fn type_code(p_type: PacketType) -> u8 {
    match p_type {
        PacketType::Data => 0x01,
        PacketType::Ack => 0x02,
        PacketType::Unknown => 0x03,
    }
}

/// The packet type that a type byte stands for: every byte but the two that
/// are assigned reads as `Unknown`.
pub open spec fn type_of_code(code: u8) -> PacketType {
    if code == 0x01 {
        PacketType::Data
    } else if code == 0x02 {
        PacketType::Ack
    } else {
        PacketType::Unknown
    }
}

impl From<u8> for PacketType {
    fn from(val: u8) -> (p_type: Self) {
        match val {
            0x01 => PacketType::Data,
            0x02 => PacketType::Ack,
            _ => PacketType::Unknown,
        }
    }
}

impl FromSpecImpl<u8> for PacketType {
    open spec fn obeys_from_spec() -> bool {
        true
    }

    open spec fn from_spec(val: u8) -> Self {
        type_of_code(val)
    }
}

impl PacketType {
    /// The type byte on the wire.
    pub fn code(self) -> (code: u8)
        ensures
            code == type_code(self),
    {
        match self {
            PacketType::Data => 0x01,
            PacketType::Ack => 0x02,
            PacketType::Unknown => 0x03,
        }
    }
}

/// What a packet says, apart from how it is stored.
#[verifier::ext_equal]
pub struct PacketView {
    pub seq_num: nat,
    pub p_type: PacketType,
    pub payload: Seq<u8>,
}

pub struct Packet {
    pub seq_num: u32,
    pub p_type: PacketType,
    pub payload: Vec<u8>,
}

impl View for Packet {
    type V = PacketView;

    open spec fn view(&self) -> PacketView {
        PacketView {
            seq_num: self.seq_num as nat,
            p_type: self.p_type,
            payload: self.payload@,
        }
    }
}

/// The four bytes of a sequence number, most significant first.
pub open spec fn be_bytes(n: nat) -> Seq<u8> {
    seq![
        ((n / 0x100_0000) % 0x100) as u8,
        ((n / 0x1_0000) % 0x100) as u8,
        ((n / 0x100) % 0x100) as u8,
        (n % 0x100) as u8,
    ]
}

/// The number that four bytes stand for, most significant first.
pub open spec fn be_value(b: Seq<u8>) -> nat {
    (b[0] * 0x100_0000 + b[1] * 0x1_0000 + b[2] * 0x100 + b[3]) as nat
}

/// The datagram that carries a packet.
pub open spec fn encode(p: PacketView) -> Seq<u8> {
    be_bytes(p.seq_num) + seq![type_code(p.p_type)] + p.payload
}

/// The packet that a datagram carries, if it is long enough to carry one.
pub open spec fn decode(bytes: Seq<u8>) -> Option<PacketView> {
    if bytes.len() < HEADER_SIZE {
        None
    } else {
        Some(
            PacketView {
                seq_num: be_value(bytes),
                p_type: type_of_code(bytes[4]),
                payload: bytes.skip(HEADER_SIZE as int),
            },
        )
    }
}

/// The packet that carries application data.
pub open spec fn data_packet(seq_num: nat, payload: Seq<u8>) -> PacketView {
    PacketView { seq_num, p_type: PacketType::Data, payload }
}

/// The packet that acknowledges a sequence number.
pub open spec fn ack_packet(seq_num: nat) -> PacketView {
    PacketView { seq_num, p_type: PacketType::Ack, payload: Seq::empty() }
}

impl Packet {
    /// Serializes to bytes: `[SeqNum (4)] [Type (1)] [Payload (variable)]`.
    pub fn to_bytes(&self) -> (bytes: Vec<u8>)
        ensures
            bytes@ == encode(self@),
    {
        let n: u32 = self.seq_num;
        let mut bytes: Vec<u8> = Vec::new();
        bytes.push((n / 0x100_0000) as u8);
        bytes.push(((n / 0x1_0000) % 0x100) as u8);
        bytes.push(((n / 0x100) % 0x100) as u8);
        bytes.push((n % 0x100) as u8);
        bytes.push(self.p_type.code());
        bytes.extend_from_slice(&self.payload);
        assert(bytes@ =~= encode(self@));
        bytes
    }

    /// Deserializes wire bytes; `None` if they are too short for a header.
    pub fn from_bytes(bytes: &[u8]) -> (packet: Option<Self>)
        ensures
            packet is Some <==> decode(bytes@) is Some,
            packet matches Some(p) ==> decode(bytes@) == Some(p@),
    {
        if bytes.len() < HEADER_SIZE {
            return None;
        }
        let seq_num: u32 = bytes[0] as u32 * 0x100_0000 + bytes[1] as u32 * 0x1_0000
            + bytes[2] as u32 * 0x100 + bytes[3] as u32;
        let p_type = PacketType::from(bytes[4]);
        let payload = slice_to_vec(slice_subrange(bytes, HEADER_SIZE, bytes.len()));
        assert(payload@ =~= bytes@.skip(HEADER_SIZE as int));
        Some(Packet { seq_num, p_type, payload })
    }
}

/// Four bytes hold every sequence number: reading them back gives the number.
pub proof fn be_bytes_round_trip(n: nat)
    requires
        n <= u32::MAX,
    ensures
        be_value(be_bytes(n)) == n,
{
}

/// Reading a datagram gives back the packet it was made from, whatever its
/// type and payload.
pub proof fn decode_inverts_encode(p: PacketView)
    requires
        p.seq_num <= u32::MAX,
    ensures
        decode(encode(p)) == Some(p),
{
    be_bytes_round_trip(p.seq_num);
    let bytes = encode(p);
    assert(bytes.skip(HEADER_SIZE as int) =~= p.payload);
    assert(bytes[0] == be_bytes(p.seq_num)[0]);
    assert(bytes[1] == be_bytes(p.seq_num)[1]);
    assert(bytes[2] == be_bytes(p.seq_num)[2]);
    assert(bytes[3] == be_bytes(p.seq_num)[3]);
}

/// No two packets share a datagram.
pub proof fn encode_is_injective(p: PacketView, q: PacketView)
    requires
        p.seq_num <= u32::MAX,
        q.seq_num <= u32::MAX,
        encode(p) == encode(q),
    ensures
        p == q,
{
    decode_inverts_encode(p);
    decode_inverts_encode(q);
}

/// Writing a packet that was read gives back the datagram, byte for byte,
/// exactly where the type byte is one that a packet is written with. Any other
/// type byte reads as `Unknown` and is not kept.
pub proof fn encode_inverts_decode(bytes: Seq<u8>)
    requires
        bytes.len() >= HEADER_SIZE,
    ensures
        encode(decode(bytes)->Some_0) == bytes <==> 0x01 <= bytes[4] <= 0x03,
{
    let p = decode(bytes)->Some_0;
    let n = be_value(bytes);
    assert(be_bytes(n) =~= bytes.take(4)) by {
        let (a, b, c, d) = (bytes[0] as nat, bytes[1] as nat, bytes[2] as nat, bytes[3] as nat);
        assert(n == a * 0x100_0000 + b * 0x1_0000 + c * 0x100 + d);
        assert(n / 0x100_0000 == a);
        assert(n / 0x1_0000 == a * 0x100 + b);
        assert(n / 0x100 == a * 0x1_0000 + b * 0x100 + c);
    }
    if 0x01 <= bytes[4] <= 0x03 {
        assert(encode(p) =~= bytes);
    } else {
        assert(encode(p)[4] == type_code(p.p_type));
    }
}

/// The header costs five bytes, whatever the payload.
pub proof fn encoded_length(p: PacketView)
    ensures
        encode(p).len() == HEADER_SIZE + p.payload.len(),
{
}

} // verus!

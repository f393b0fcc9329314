use ironlink_rudp::packet::{Packet, PacketType, HEADER_SIZE};

#[test]
fn data_packet_has_the_documented_layout() {
    let packet = Packet {
        seq_num: 0x0102_0304,
        p_type: PacketType::Data,
        payload: vec![0xAA, 0xBB],
    };
    assert_eq!(packet.to_bytes(), vec![0x01, 0x02, 0x03, 0x04, 0x01, 0xAA, 0xBB]);
}

#[test]
fn ack_packet_is_a_bare_header() {
    let ack = Packet { seq_num: 7, p_type: PacketType::Ack, payload: vec![] };
    assert_eq!(ack.to_bytes(), vec![0, 0, 0, 7, 0x02]);
    assert_eq!(ack.to_bytes().len(), HEADER_SIZE);
}

#[test]
fn unknown_type_is_written_after_the_assigned_ones() {
    let packet = Packet { seq_num: u32::MAX, p_type: PacketType::Unknown, payload: vec![9] };
    assert_eq!(packet.to_bytes(), vec![0xFF, 0xFF, 0xFF, 0xFF, 0x03, 9]);
}

#[test]
fn short_datagrams_are_no_packets() {
    assert!(Packet::from_bytes(&[]).is_none());
    assert!(Packet::from_bytes(&[0, 0, 0, 1]).is_none());
    assert!(Packet::from_bytes(&[0, 0, 0, 1, 1]).is_some());
}

#[test]
fn reading_gives_back_what_was_written() {
    for p_type in [PacketType::Data, PacketType::Ack, PacketType::Unknown] {
        for seq_num in [0u32, 1, 255, 256, 65_536, 16_777_216, 0xDEAD_BEEF, u32::MAX] {
            let packet = Packet { seq_num, p_type, payload: vec![1, 2, 3] };
            let read = Packet::from_bytes(&packet.to_bytes()).expect("long enough");
            assert_eq!(read.seq_num, seq_num);
            assert_eq!(read.p_type, p_type);
            assert_eq!(read.payload, vec![1, 2, 3]);
        }
    }
}

#[test]
fn writing_gives_back_what_was_read_for_assigned_types_only() {
    for code in 0u8..=255 {
        let bytes = vec![1, 2, 3, 4, code, 5, 6];
        let read = Packet::from_bytes(&bytes).expect("long enough");
        assert_eq!(read.to_bytes() == bytes, (1..=3).contains(&code));
    }
}

#[test]
fn type_bytes_read_as_documented() {
    assert_eq!(PacketType::from(0x01), PacketType::Data);
    assert_eq!(PacketType::from(0x02), PacketType::Ack);
    for code in [0x00, 0x03, 0x04, 0x80, 0xFF] {
        assert_eq!(PacketType::from(code), PacketType::Unknown);
    }
    assert_eq!(PacketType::Data.code(), 1);
    assert_eq!(PacketType::Ack.code(), 2);
}

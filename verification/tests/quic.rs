use fingerprint::quic::{parse_variable_length_integer, QuicInitialPacket, QuicPacketType, QuicVersion};

#[test]
fn test_quic_version_conversion() {
    let v1 = QuicVersion::from_u32(0x00000001);
    assert_eq!(v1, QuicVersion::V1);
    assert_eq!(v1.to_u32(), 0x00000001);

    let v2 = QuicVersion::from_u32(0x6b3343cf);
    assert_eq!(v2, QuicVersion::V2);

    let unknown = QuicVersion::from_u32(0xdeadbeef);
    assert!(matches!(unknown, QuicVersion::Unknown(0xdeadbeef)));
}

#[test]
fn test_packet_type_extraction() {
    assert_eq!(QuicPacketType::from_type_bits(0x00), QuicPacketType::Initial);
    assert_eq!(QuicPacketType::from_type_bits(0x01), QuicPacketType::ZeroRTT);
    assert_eq!(QuicPacketType::from_type_bits(0x02), QuicPacketType::Handshake);
    assert_eq!(QuicPacketType::from_type_bits(0x03), QuicPacketType::Retry);
}

#[test]
fn test_variable_length_integer() {
    let data = vec![0x25];
    let (val, len) = parse_variable_length_integer(&data).unwrap();
    assert_eq!(val, 37);
    assert_eq!(len, 1);

    let data = vec![0x40, 0x25];
    let (val, len) = parse_variable_length_integer(&data).unwrap();
    assert_eq!(val, 0x25);
    assert_eq!(len, 2);
}

#[test]
fn test_variable_length_integer_longer_forms() {
    assert_eq!(parse_variable_length_integer(&[0x9d, 0x7f, 0x3e, 0x7d]).unwrap(), (494878333, 4));
    assert_eq!(
        parse_variable_length_integer(&[0xc2, 0x19, 0x7c, 0x5e, 0xff, 0x14, 0xe8, 0x8c]).unwrap(),
        (151288809941952652, 8)
    );
    assert_eq!(parse_variable_length_integer(&[]).unwrap_err(), "Empty data for variable length integer");
    assert_eq!(parse_variable_length_integer(&[0x40]).unwrap_err(), "Insufficient data for 2-byte varint");
    assert_eq!(parse_variable_length_integer(&[0x80, 1, 2]).unwrap_err(), "Insufficient data for 4-byte varint");
    assert_eq!(parse_variable_length_integer(&[0xc0, 1]).unwrap_err(), "Insufficient data for 8-byte varint");
}

#[test]
fn test_quic_initial_packet_fingerprint() {
    let packet = QuicInitialPacket {
        version: QuicVersion::V1,
        packet_type: QuicPacketType::Initial,
        dcid: vec![1, 2, 3, 4],
        scid: vec![5, 6, 7, 8],
        token: vec![],
        spin_bit: false,
        reserved_bits: 0x00,
        packet_number_length: 4,
        first_byte: 0xc0,
        packet_length: Some(1200),
    };

    let fp = packet.fingerprint();
    assert!(fp.contains("quic_v1"));
    assert!(fp.contains("4_4"));
    assert!(fp.contains("4"));
    assert_eq!(fp, "quic_v1_4_4_4_0");
}

#[test]
fn test_parse_initial_packet() {
    let mut data = vec![0xc3, 0x00, 0x00, 0x00, 0x01, 0x04, 1, 2, 3, 4, 0x02, 9, 9, 0x00, 0x44, 0xd0];
    data.extend_from_slice(&[0u8; 16]);
    let p = QuicInitialPacket::parse(&data).unwrap();
    assert_eq!(p.version, QuicVersion::V1);
    assert_eq!(p.packet_type, QuicPacketType::Retry);
    assert_eq!(p.dcid, vec![1, 2, 3, 4]);
    assert_eq!(p.scid, vec![9, 9]);
    assert!(p.token.is_empty());
    assert!(!p.spin_bit);
    assert_eq!(p.reserved_bits, 0);
    assert_eq!(p.packet_number_length, 1);
    assert_eq!(p.packet_length, Some(0x4d0));
    assert_eq!(p.fingerprint(), "quic_v1_4_2_1_0");
    let text = p.analyze();
    assert!(text.starts_with("QUIC Initial Packet Analysis:\n- Version: QUIC v1 (RFC 9000)\n- Packet Type: Retry\n"));
    assert!(text.contains("- First Byte: 0xc3\n"));
    assert!(text.ends_with("- Fingerprint: quic_v1_4_2_1_0"));
}

#[test]
fn test_parse_errors() {
    assert_eq!(QuicInitialPacket::parse(&[]).unwrap_err(), "Empty packet data");
    assert_eq!(QuicInitialPacket::parse(&[0x40]).unwrap_err(), "Not a long header form packet");
    assert_eq!(QuicInitialPacket::parse(&[0x80]).unwrap_err(), "Fixed bit is not 1");
    assert_eq!(QuicInitialPacket::parse(&[0xc0, 0, 0]).unwrap_err(), "Insufficient data for version field");
    assert_eq!(QuicInitialPacket::parse(&[0xc0, 0, 0, 0, 1]).unwrap_err(), "Insufficient data for DCID length");
    assert_eq!(QuicInitialPacket::parse(&[0xc0, 0, 0, 0, 1, 3, 1]).unwrap_err(), "Insufficient data for DCID");
    assert_eq!(QuicInitialPacket::parse(&[0xc0, 0, 0, 0, 1, 0]).unwrap_err(), "Insufficient data for SCID length");
    assert_eq!(QuicInitialPacket::parse(&[0xc0, 0, 0, 0, 1, 0, 2, 1]).unwrap_err(), "Insufficient data for SCID");
    assert_eq!(
        QuicInitialPacket::parse(&[0xc0, 0, 0, 0, 1, 0, 0]).unwrap_err(),
        "Empty data for variable length integer"
    );
    assert_eq!(QuicInitialPacket::parse(&[0xc0, 0, 0, 0, 1, 0, 0, 5, 1]).unwrap_err(), "Insufficient data for token");
    assert_eq!(
        QuicInitialPacket::parse(&[0xc0, 0, 0, 0, 1, 0, 0, 1, 7]).unwrap_err(),
        "Insufficient data for length field"
    );
}

#[test]
fn test_version_display_and_roundtrip() {
    assert_eq!(QuicVersion::Unknown(0xab).to_string(), "QUIC Unknown (0x000000ab)");
    assert_eq!(QuicVersion::Draft29.to_string(), "QUIC Draft-29");
    assert_eq!(QuicPacketType::Unknown(7).to_string(), "Unknown (0x07)");
    assert_eq!(QuicPacketType::ZeroRTT.to_string(), "0-RTT");
    for v in [1u32, 0x6b3343cf, 0xff00001d, 0xff00001e, 0xff00001f, 0xff000020, 5, 0xdeadbeef] {
        assert_eq!(QuicVersion::from_u32(v).to_u32(), v);
    }
}

use fingerprint::grease::{filter_grease_values, is_grease_value, remove_grease_values, TLS_GREASE_VALUES};
use fingerprint::tls_handshake::{
    ClientHelloMessage, TLSHandshake, TLSHandshakeBuilder, TLSHandshakeType, TLSRecord, TLSRecordType,
};

#[test]
fn test_handshake_serialization() {
    let body = vec![1, 2, 3, 4, 5];
    let handshake = TLSHandshake::client_hello(body.clone());

    let bytes = handshake.to_bytes();

    assert_eq!(bytes[0], 1);
    assert_eq!(bytes[1], 0);
    assert_eq!(bytes[2], 0);
    assert_eq!(bytes[3], 5);
    assert_eq!(&bytes[4..], &body);
}

#[test]
fn test_handshake_deserialization() {
    let data = vec![1, 0, 0, 5, 1, 2, 3, 4, 5];
    let (handshake, consumed) = TLSHandshake::from_bytes(&data).unwrap();

    assert_eq!(handshake.msg_type, TLSHandshakeType::ClientHello);
    assert_eq!(handshake.body, vec![1, 2, 3, 4, 5]);
    assert_eq!(consumed, 9);
}

#[test]
fn test_handshake_errors() {
    assert_eq!(
        TLSHandshake::from_bytes(&[1, 0, 0]).unwrap_err(),
        "countdatatoo short，unable toParsehandshakemessage"
    );
    assert_eq!(TLSHandshake::from_bytes(&[3, 0, 0, 0]).unwrap_err(), "not知handshaketype: 3");
    assert_eq!(
        TLSHandshake::from_bytes(&[1, 0, 0, 5, 1, 2]).unwrap_err(),
        "countdata不complete，need 9 bytes，actualonly 6 bytes"
    );
}

#[test]
fn test_handshake_roundtrip_with_trailing_bytes() {
    let msg = TLSHandshake::new(TLSHandshakeType::Finished, vec![9, 8, 7]);
    let mut bytes = msg.to_bytes();
    bytes.extend_from_slice(&[0xaa, 0xbb]);
    let (decoded, n) = TLSHandshake::from_bytes(&bytes).unwrap();
    assert_eq!(decoded.msg_type, TLSHandshakeType::Finished);
    assert_eq!(decoded.body, vec![9, 8, 7]);
    assert_eq!(n, 7);
    assert_eq!(TLSHandshakeType::Finished.as_u8(), 20);
}

#[test]
fn test_tls_record_serialization() {
    let data = vec![1, 2, 3, 4, 5];
    let record = TLSRecord::handshake(0x0303, data.clone());

    let bytes = record.to_bytes();

    assert_eq!(bytes[0], 22);
    assert_eq!(u16::from_be_bytes([bytes[1], bytes[2]]), 0x0303);
    assert_eq!(u16::from_be_bytes([bytes[3], bytes[4]]), 5);
    assert_eq!(&bytes[5..], &data);
}

#[test]
fn test_tls_record_deserialization() {
    let data = vec![22, 0x03, 0x03, 0x00, 0x05, 1, 2, 3, 4, 5];
    let (record, consumed) = TLSRecord::from_bytes(&data).unwrap();

    assert_eq!(record.content_type, TLSRecordType::Handshake);
    assert_eq!(record.version, 0x0303);
    assert_eq!(record.fragment, vec![1, 2, 3, 4, 5]);
    assert_eq!(consumed, 10);
}

#[test]
fn test_record_errors() {
    assert_eq!(
        TLSRecord::from_bytes(&[22, 3, 3, 0]).unwrap_err(),
        "countdatatoo short，unable toParse TLS record"
    );
    assert_eq!(TLSRecord::from_bytes(&[99, 3, 3, 0, 0]).unwrap_err(), "not知inside容type: 99");
    assert_eq!(
        TLSRecord::from_bytes(&[23, 3, 3, 0, 2, 1]).unwrap_err(),
        "countdata不complete，need 7 bytes，actualonly 6 bytes"
    );
    assert_eq!(TLSRecordType::Alert.as_u8(), 21);
}

#[test]
fn test_sni_extension() {
    let data = ClientHelloMessage::build_sni_extension("example.com");

    assert!(data.len() > 5);
    let list_len = u16::from_be_bytes([data[0], data[1]]) as usize;
    assert_eq!(list_len, data.len() - 2);
    assert_eq!(data[2], 0);
    let name_len = u16::from_be_bytes([data[3], data[4]]) as usize;
    assert_eq!(name_len, 11);
}

fn sample_message() -> ClientHelloMessage {
    ClientHelloMessage {
        client_version: 0x0303,
        random: vec![7; 32],
        session_id: vec![],
        cipher_suites: vec![0xc02f, 0xc030],
        compression_methods: vec![0],
        extensions: vec![0, 0, 0, 0],
    }
}

#[test]
fn test_client_hello_body_layout() {
    let msg = sample_message();
    let bytes = msg.to_bytes();
    assert_eq!(&bytes[0..2], &[0x03, 0x03]);
    assert_eq!(&bytes[2..34], &[7u8; 32][..]);
    assert_eq!(bytes[34], 0);
    assert_eq!(&bytes[35..41], &[0x00, 0x04, 0xc0, 0x2f, 0xc0, 0x30]);
    assert_eq!(&bytes[41..43], &[1, 0]);
    assert_eq!(&bytes[43..], &[0x00, 0x04, 0, 0, 0, 0]);
    assert!(bytes.len() >= 41);
}

#[test]
fn test_client_hello_debug_info() {
    let msg = sample_message();
    assert_eq!(
        msg.debug_info(),
        "ClientHello:\n- Version: 0x0303\n- Random: 32 bytes\n- Session ID: 0 bytes\n- Cipher Suites: 2 suites\n- Compression: 1 methods\n- Extensions: 4 bytes"
    );
}

#[test]
fn test_build_client_hello_record() {
    let msg = sample_message();
    let bytes = TLSHandshakeBuilder::build_record(&msg);
    assert_eq!(bytes[0], 22);
    assert_eq!(bytes[1], 0x03);
    assert_eq!(bytes[2], 0x01);
    let record_length = u16::from_be_bytes([bytes[3], bytes[4]]) as usize;
    assert_eq!(bytes.len(), 5 + record_length);
    assert_eq!(bytes[5], 1);
    let (record, _) = TLSRecord::from_bytes(&bytes).unwrap();
    let (handshake, _) = TLSHandshake::from_bytes(&record.fragment).unwrap();
    assert_eq!(handshake.body, msg.to_bytes());
}

#[test]
fn test_is_grease_value() {
    assert!(is_grease_value(0x0a0a));
    assert!(is_grease_value(0x1a1a));
    assert!(is_grease_value(0xfafa));
    assert!(!is_grease_value(0x0017));
    assert!(!is_grease_value(0x0018));
    assert!(!is_grease_value(0x0303));
}

#[test]
fn test_filter_grease_values() {
    let values = vec![0x0a0a, 0x0017, 0x1a1a, 0x0018, 0x2a2a];
    let filtered = filter_grease_values(&values);
    assert_eq!(filtered, vec![0x0017, 0x0018]);
}

#[test]
fn test_remove_grease_values() {
    let mut values = vec![0x0a0a, 0x0017, 0x1a1a, 0x0018];
    remove_grease_values(&mut values);
    assert_eq!(values, vec![0x0017, 0x0018]);
}

#[test]
fn test_all_grease_values() {
    for &grease in &TLS_GREASE_VALUES {
        assert!(is_grease_value(grease), "{} should be a GREASE value", grease);
    }
}

#[test]
fn test_grease_exactly_the_table() {
    for v in 0..=u16::MAX {
        assert_eq!(is_grease_value(v), TLS_GREASE_VALUES.contains(&v));
    }
}

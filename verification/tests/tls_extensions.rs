use fingerprint::tls_extensions::{
    extension_from_id, ALPNExtension, KeyShare, KeyShareExtension, RenegotiationInfoExtension, SNIExtension,
    StatusRequestExtension, SupportedCurvesExtension, SupportedVersionsExtension, TLSExtension,
    TLSExtensionWriter, UtlsGREASEExtension, UtlsPaddingExtension,
};
use fingerprint::tls_handshake::ClientHelloMessage;

fn read_all(ext: &dyn TLSExtension, size: usize) -> (Result<usize, std::io::Error>, Vec<u8>) {
    let mut buf = vec![0xffu8; size];
    let r = ext.read(&mut buf);
    (r, buf)
}

#[test]
fn test_sni_extension_bytes() {
    let ext = SNIExtension::new("a.b".to_string());
    assert_eq!(ext.len(), 12);
    let (r, buf) = read_all(&ext, 14);
    assert_eq!(r.unwrap(), 12);
    assert_eq!(buf, vec![0, 0, 0, 8, 0, 6, 0, 0, 3, b'a', b'.', b'b', 0xff, 0xff]);
    assert_eq!(ext.extension_id(), 0);

    let empty = SNIExtension::new(String::new());
    assert!(empty.is_empty());
    let (r, buf) = read_all(&empty, 2);
    assert_eq!(r.unwrap(), 0);
    assert_eq!(buf, vec![0xff, 0xff]);

    let (r, buf) = read_all(&ext, 5);
    assert!(r.is_err());
    assert_eq!(buf, vec![0xff; 5]);
}

#[test]
fn test_list_extensions_bytes() {
    let curves = SupportedCurvesExtension::new(vec![0x001d, 0x0017]);
    let (r, buf) = read_all(&curves, 10);
    assert_eq!(r.unwrap(), 10);
    assert_eq!(buf, vec![0, 10, 0, 6, 0, 4, 0, 0x1d, 0, 0x17]);

    let versions = SupportedVersionsExtension::new(vec![0x0304, 0x0303]);
    assert_eq!(versions.len(), 10);
    let (r, buf) = read_all(&versions, 10);
    assert_eq!(r.unwrap(), 10);
    assert_eq!(buf, vec![0, 43, 0, 5, 4, 3, 4, 3, 3, 0xff]);

    let alpn = ALPNExtension::new(vec!["h2".to_string(), "http/1.1".to_string()]);
    assert_eq!(alpn.len(), 18);
    let (r, buf) = read_all(&alpn, 18);
    assert_eq!(r.unwrap(), 18);
    let mut expected = vec![0, 16, 0, 14, 0, 12, 2, b'h', b'2', 8];
    expected.extend_from_slice(b"http/1.1");
    assert_eq!(buf, expected);

    let ks = KeyShareExtension::new(vec![KeyShare { group: 0x001d, data: vec![1, 2, 3] }]);
    let (r, buf) = read_all(&ks, 13);
    assert_eq!(r.unwrap(), 13);
    assert_eq!(buf, vec![0, 51, 0, 9, 0, 7, 0, 0x1d, 0, 3, 1, 2, 3]);
}

#[test]
fn test_fixed_extensions_bytes() {
    let (r, buf) = read_all(&StatusRequestExtension, 9);
    assert_eq!(r.unwrap(), 9);
    assert_eq!(buf, vec![0, 5, 0, 5, 1, 0, 0, 0, 0]);

    let (r, buf) = read_all(&RenegotiationInfoExtension::new(1), 5);
    assert_eq!(r.unwrap(), 5);
    assert_eq!(buf, vec![0xff, 0x01, 0, 1, 1]);

    let grease = UtlsGREASEExtension::new();
    assert_eq!(grease.value % 0x1010, 0x0a0a);
    let (r, buf) = read_all(&grease, 4);
    assert_eq!(r.unwrap(), 4);
    assert_eq!(buf, vec![(grease.value >> 8) as u8, (grease.value & 0xff) as u8, 0, 0]);
}

#[test]
fn test_padding_extension() {
    assert_eq!(UtlsPaddingExtension::boring_padding_style(300), (208, true));
    assert_eq!(UtlsPaddingExtension::boring_padding_style(510), (1, true));
    assert_eq!(UtlsPaddingExtension::boring_padding_style(100), (0, false));
    assert_eq!(UtlsPaddingExtension::boring_padding_style(512), (0, false));

    let mut pad = UtlsPaddingExtension::new();
    assert_eq!(pad.len(), 0);
    assert_eq!(pad.write(&[1, 2, 3]).unwrap(), 3);
    assert!(pad.get_padding_len.is_some());
    pad.will_pad = true;
    pad.padding_len = 2;
    let (r, buf) = read_all(&pad, 6);
    assert_eq!(r.unwrap(), 6);
    assert_eq!(buf, vec![0, 21, 0, 2, 0, 0]);
}

#[test]
fn test_extension_from_id() {
    assert_eq!(extension_from_id(43).unwrap().extension_id(), 43);
    assert_eq!(extension_from_id(0xff01).unwrap().extension_id(), 0xff01);
    let g = extension_from_id(0x2a2a).unwrap();
    assert_eq!(g.extension_id() % 0x1010, 0x0a0a);
    assert!(extension_from_id(0x1234).is_none());
    assert!(extension_from_id(0x000a).is_some());
}

#[test]
fn test_serialize_extensions() {
    let exts: Vec<Box<dyn TLSExtension>> = vec![
        Box::new(SNIExtension::new(String::new())),
        Box::new(ALPNExtension::new(vec!["h2".to_string()])),
        Box::new(SNIExtension::new("zzz".to_string())),
        Box::new(UtlsPaddingExtension::new()),
    ];
    let bytes = ClientHelloMessage::serialize_extensions(&exts, "ab");
    let expected = vec![
        0, 0, 0, 7, 0, 5, 0, 0, 2, b'a', b'b', // SNI entry for "ab"
        0, 16, 0, 5, 0, 3, 2, b'h', b'2', // ALPN
        0, 21, 0, 0, // padding that does not pad
    ];
    assert_eq!(bytes, expected);

    let none: Vec<Box<dyn TLSExtension>> = Vec::new();
    assert_eq!(ClientHelloMessage::serialize_extensions(&none, "x"), vec![0, 0, 0, 6, 0, 4, 0, 0, 1, b'x']);
    assert!(ClientHelloMessage::serialize_extensions(&none, "").is_empty());
}

use fingerprint::tls_config::{
    chrome_103_spec, firefox_133_spec, safari_16_0_spec, ClientHelloSpec, ClientHelloSpecBuilder, TlsVersion,
    GREASE_PLACEHOLDER, VERSION_TLS12, VERSION_TLS13, X25519_MLKEM768,
};
use fingerprint::tls_extensions::{SCTExtension, TLSExtension};
use fingerprint::tls_handshake::{ClientHelloMessage, TLSHandshakeBuilder};
use fingerprint::tls_metadata::{EXT_TYPE_SUPPORTED_GROUPS, EXT_TYPE_SUPPORTED_VERSIONS};

fn is_grease(v: u16) -> bool {
    v % 0x1010 == 0x0a0a
}

#[test]
fn test_clienthello_basic() {
    let spec = ClientHelloSpec {
        cipher_suites: vec![0xc02f, 0xc030],
        compression_methods: vec![0],
        extensions: vec![],
        tls_vers_min: 0x0303,
        tls_vers_max: 0x0303,
        metadata: None,
    };

    let msg = ClientHelloMessage::from_spec(&spec, "example.com").unwrap();

    assert_eq!(msg.client_version, 0x0303);
    assert_eq!(msg.random.len(), 32);
    assert_eq!(msg.cipher_suites.len(), 2);
    assert_eq!(msg.compression_methods, vec![0]);

    let bytes = msg.to_bytes();
    println!("ClientHello size: {} bytes", bytes.len());
    println!("{}", msg.debug_info());

    assert!(bytes.len() >= 41);
}

#[test]
fn test_build_client_hello() {
    let spec = ClientHelloSpec {
        cipher_suites: vec![0xc02f, 0xc030, 0x1301],
        compression_methods: vec![0],
        extensions: vec![],
        tls_vers_min: 0x0303,
        tls_vers_max: 0x0304,
        metadata: None,
    };

    let result = TLSHandshakeBuilder::build_client_hello(&spec, "example.com");
    assert!(result.is_ok());

    let bytes = result.unwrap();
    println!("Generated ClientHello: {} bytes", bytes.len());

    assert_eq!(bytes[0], 22);
    assert_eq!(bytes[1], 0x03);
    assert_eq!(bytes[2], 0x01);

    let record_length = u16::from_be_bytes([bytes[3], bytes[4]]) as usize;
    assert_eq!(bytes.len(), 5 + record_length);
}

#[test]
fn test_from_spec_defaults() {
    let spec = ClientHelloSpec::new();
    let msg = ClientHelloMessage::from_spec(&spec, "").unwrap();
    assert_eq!(msg.client_version, 0x0303);
    assert_eq!(msg.compression_methods, vec![0]);
    assert!(msg.session_id.is_empty());
    assert!(msg.extensions.is_empty());

    let with_sni = ClientHelloMessage::from_spec(&spec, "a.io").unwrap();
    // SNI entry added for a non-empty name: ID 0, length 9, list length 7, type 0, name length 4.
    assert_eq!(with_sni.extensions, vec![0, 0, 0, 9, 0, 7, 0, 0, 4, b'a', b'.', b'i', b'o']);
}

#[test]
fn test_chrome_103_spec() {
    let spec = ClientHelloSpec::chrome_103();
    assert_eq!(spec.cipher_suites.len(), 16);
    assert_eq!(spec.cipher_suites[0], GREASE_PLACEHOLDER);
    assert_eq!(spec.cipher_suites[1], 0x1301);
    assert_eq!(spec.compression_methods, vec![0]);
    assert_eq!(spec.extensions.len(), 18);
    let ids: Vec<u16> = spec.extensions.iter().map(|e| e.extension_id()).collect();
    assert!(is_grease(ids[0]));
    assert_eq!(&ids[1..16], &[0, 23, 0xff01, 10, 11, 35, 16, 5, 13, 18, 51, 45, 43, 27, 17613]);
    assert!(is_grease(ids[16]));
    assert_eq!(ids[17], 21);

    let metadata = spec.metadata.as_ref().unwrap();
    assert_eq!(metadata.get_first_alpn(), Some("h2".to_string()));
    let groups = metadata
        .extension_metadata
        .iter()
        .find(|(id, _)| *id == EXT_TYPE_SUPPORTED_GROUPS)
        .and_then(|(_, m)| m.elliptic_curves.clone())
        .unwrap();
    assert_eq!(groups, vec![GREASE_PLACEHOLDER, X25519_MLKEM768, 29, 23, 24]);
    let versions = metadata
        .extension_metadata
        .iter()
        .find(|(id, _)| *id == EXT_TYPE_SUPPORTED_VERSIONS)
        .and_then(|(_, m)| m.supported_versions.clone())
        .unwrap();
    assert_eq!(versions, vec![GREASE_PLACEHOLDER, VERSION_TLS13, VERSION_TLS12]);

    assert!(chrome_103_spec().is_ok());
}

#[test]
fn test_firefox_and_safari_specs() {
    let firefox = firefox_133_spec().unwrap();
    assert_eq!(firefox.cipher_suites[0], 0x1302);
    assert_eq!(firefox.cipher_suites.len(), 9);
    let ids: Vec<u16> = firefox.extensions.iter().map(|e| e.extension_id()).collect();
    assert_eq!(ids, vec![10, 11, 13, 16, 23, 43]);
    assert!(firefox.metadata.is_none());

    let safari = safari_16_0_spec().unwrap();
    assert_eq!(safari.cipher_suites.len(), 7);
    let ids: Vec<u16> = safari.extensions.iter().map(|e| e.extension_id()).collect();
    assert_eq!(ids, vec![10, 11, 13, 16, 43]);

    let record = TLSHandshakeBuilder::build_client_hello(&safari, "www.apple.com").unwrap();
    assert_eq!(record[0], 22);
    let record_length = u16::from_be_bytes([record[3], record[4]]) as usize;
    assert_eq!(record.len(), 5 + record_length);
    // handshake type ClientHello, body version TLS 1.2
    assert_eq!(record[5], 1);
    assert_eq!(&record[9..11], &[0x03, 0x03]);
}

#[test]
fn test_spec_builder() {
    let spec = ClientHelloSpecBuilder::new()
        .cipher_suites(ClientHelloSpecBuilder::chrome_cipher_suites())
        .add_cipher_suite(0x00ff)
        .compression_methods(vec![0])
        .add_extension(Box::new(SCTExtension))
        .tls_versions(VERSION_TLS12, VERSION_TLS13)
        .build();
    assert_eq!(spec.cipher_suites.len(), 17);
    assert_eq!(spec.cipher_suites[16], 0x00ff);
    assert_eq!(spec.extensions.len(), 1);
    assert_eq!(spec.extensions[0].extension_id(), 18);
    assert_eq!((spec.tls_vers_min, spec.tls_vers_max), (0x0303, 0x0304));
    assert!(spec.metadata.is_none());

    assert_eq!(ClientHelloSpecBuilder::chrome_136_cipher_suites(), ClientHelloSpecBuilder::chrome_cipher_suites());
    assert_eq!(ClientHelloSpecBuilder::chrome_signature_algorithms()[0], 0x0403);
    assert_eq!(ClientHelloSpecBuilder::chrome_alpn_protocols(), &["h2", "http/1.1"]);

    let (exts, metadata) = ClientHelloSpecBuilder::chrome_103_extensions();
    assert_eq!(exts.len(), 18);
    assert_eq!(metadata.get_first_alpn(), Some("h2".to_string()));

    let msg = ClientHelloMessage::from_spec(&spec, "x.org").unwrap();
    assert_eq!(msg.client_version, 0x0304);
}

#[test]
fn test_format_tls_version() {
    assert_eq!(TlsVersion::V1_3.to_string(), "13");
    assert_eq!(TlsVersion::V1_2.to_string(), "12");
    assert_eq!(TlsVersion::V1_0.to_string(), "10");
}

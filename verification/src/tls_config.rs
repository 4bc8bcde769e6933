//! ClientHello specifications: the cipher suites, compression methods and
//! extensions a browser offers, with builders for the known browsers.
use vstd::prelude::*;
use crate::tls_extensions::{
    ALPNExtension, ApplicationSettingsExtensionNew, ExtendedMasterSecretExtension, KeyShare, KeyShareExtension,
    PSKKeyExchangeModesExtension, RenegotiationInfoExtension, SCTExtension, SNIExtension, SessionTicketExtension,
    SignatureAlgorithmsExtension, StatusRequestExtension, SupportedCurvesExtension, SupportedPointsExtension,
    SupportedVersionsExtension, TLSExtension, UtlsCompressCertExtension, UtlsGREASEExtension, UtlsPaddingExtension,
};
use crate::tls_metadata::{
    SpecMetadata, EXT_TYPE_APPLICATION_LAYER_PROTOCOL_NEGOTIATION, EXT_TYPE_EC_POINT_FORMATS,
    EXT_TYPE_SIGNATURE_ALGORITHMS, EXT_TYPE_SUPPORTED_GROUPS, EXT_TYPE_SUPPORTED_VERSIONS,
};

verus! {

broadcast use vstd::string::group_string_axioms;

/// TLS 1.0.
pub const VERSION_TLS10: u16 = 0x0301;
/// TLS 1.1.
pub const VERSION_TLS11: u16 = 0x0302;
/// TLS 1.2.
pub const VERSION_TLS12: u16 = 0x0303;
/// TLS 1.3.
pub const VERSION_TLS13: u16 = 0x0304;

/// No compression.
pub const COMPRESSION_NONE: u8 = 0x00;
/// Uncompressed elliptic-curve points.
pub const POINT_FORMAT_UNCOMPRESSED: u8 = 0x00;
/// PSK with (EC)DHE key establishment.
pub const PSK_MODE_DHE: u8 = 0x01;
/// Renegotiate once, as a client.
pub const RENEGOTIATE_ONCE_AS_CLIENT: u8 = 1;
/// Brotli certificate compression.
pub const CERT_COMPRESSION_BROTLI: u16 = 0x0002;

/// A TLS protocol version, as a fingerprint names it.
#[derive(Debug, Clone, Copy, PartialEq, Eq, Structural)]
pub enum TlsVersion {
    V1_0,
    V1_1,
    V1_2,
    V1_3,
}

/// The short name of a TLS version: its two digits, such as `13`.
pub open spec fn tls_version_text(v: TlsVersion) -> Seq<char> {
    match v {
        TlsVersion::V1_0 => "10"@,
        TlsVersion::V1_1 => "11"@,
        TlsVersion::V1_2 => "12"@,
        TlsVersion::V1_3 => "13"@,
    }
}

impl TlsVersion {
    /// The short name, such as `13` for TLS 1.3.
    pub fn to_string(&self) -> (r: String)
        ensures
            r@ == tls_version_text(*self),
    {
        match self {
            TlsVersion::V1_0 => String::from_str("10"),
            TlsVersion::V1_1 => String::from_str("11"),
            TlsVersion::V1_2 => String::from_str("12"),
            TlsVersion::V1_3 => String::from_str("13"),
        }
    }
}

/// A cipher suite code point.
pub type CipherSuiteID = u16;

/// Placeholder that stands for a GREASE value in lists of cipher suites,
/// groups and versions.
pub const GREASE_PLACEHOLDER: u16 = 0x0a0a;

// Cipher suites (IANA TLS registry).
/// TLS_AES_128_GCM_SHA256
pub const TLS_AES_128_GCM_SHA256: u16 = 0x1301;
/// TLS_AES_256_GCM_SHA384
pub const TLS_AES_256_GCM_SHA384: u16 = 0x1302;
/// TLS_CHACHA20_POLY1305_SHA256
pub const TLS_CHACHA20_POLY1305_SHA256: u16 = 0x1303;
/// TLS_ECDHE_ECDSA_WITH_AES_128_GCM_SHA256
pub const TLS_ECDHE_ECDSA_WITH_AES_128_GCM_SHA256: u16 = 0xc02b;
/// TLS_ECDHE_RSA_WITH_AES_128_GCM_SHA256
pub const TLS_ECDHE_RSA_WITH_AES_128_GCM_SHA256: u16 = 0xc02f;
/// TLS_ECDHE_ECDSA_WITH_AES_256_GCM_SHA384
pub const TLS_ECDHE_ECDSA_WITH_AES_256_GCM_SHA384: u16 = 0xc02c;
/// TLS_ECDHE_RSA_WITH_AES_256_GCM_SHA384
pub const TLS_ECDHE_RSA_WITH_AES_256_GCM_SHA384: u16 = 0xc030;
/// TLS_ECDHE_ECDSA_WITH_CHACHA20_POLY1305_SHA256
pub const TLS_ECDHE_ECDSA_WITH_CHACHA20_POLY1305_SHA256: u16 = 0xcca9;
/// TLS_ECDHE_RSA_WITH_CHACHA20_POLY1305_SHA256
pub const TLS_ECDHE_RSA_WITH_CHACHA20_POLY1305_SHA256: u16 = 0xcca8;
/// TLS_ECDHE_RSA_WITH_AES_128_CBC_SHA
pub const TLS_ECDHE_RSA_WITH_AES_128_CBC_SHA: u16 = 0xc013;
/// TLS_ECDHE_RSA_WITH_AES_256_CBC_SHA
pub const TLS_ECDHE_RSA_WITH_AES_256_CBC_SHA: u16 = 0xc014;
/// TLS_RSA_WITH_AES_128_GCM_SHA256
pub const TLS_RSA_WITH_AES_128_GCM_SHA256: u16 = 0x009c;
/// TLS_RSA_WITH_AES_256_GCM_SHA384
pub const TLS_RSA_WITH_AES_256_GCM_SHA384: u16 = 0x009d;
/// TLS_RSA_WITH_AES_128_CBC_SHA
pub const TLS_RSA_WITH_AES_128_CBC_SHA: u16 = 0x002f;
/// TLS_RSA_WITH_AES_256_CBC_SHA
pub const TLS_RSA_WITH_AES_256_CBC_SHA: u16 = 0x0035;

// Signature schemes (IANA TLS registry).
/// ecdsa_secp256r1_sha256
pub const ECDSA_WITH_P256_AND_SHA256: u16 = 0x0403;
/// ecdsa_secp384r1_sha384
pub const ECDSA_WITH_P384_AND_SHA384: u16 = 0x0503;
/// ecdsa_secp521r1_sha512
pub const ECDSA_WITH_P521_AND_SHA512: u16 = 0x0603;
/// rsa_pss_rsae_sha256
pub const PSS_WITH_SHA256: u16 = 0x0804;
/// rsa_pss_rsae_sha384
pub const PSS_WITH_SHA384: u16 = 0x0805;
/// rsa_pss_rsae_sha512
pub const PSS_WITH_SHA512: u16 = 0x0806;
/// rsa_pkcs1_sha256
pub const PKCS1_WITH_SHA256: u16 = 0x0401;
/// rsa_pkcs1_sha384
pub const PKCS1_WITH_SHA384: u16 = 0x0501;
/// rsa_pkcs1_sha512
pub const PKCS1_WITH_SHA512: u16 = 0x0601;

// Named groups (IANA TLS registry).
/// secp256r1
pub const CURVE_P256: u16 = 23;
/// secp384r1
pub const CURVE_P384: u16 = 24;
/// secp521r1
pub const SECP521R1: u16 = 25;
/// x25519
pub const X25519: u16 = 29;
/// X25519MLKEM768
pub const X25519_MLKEM768: u16 = 0x11ec;

/// Whether every extension's sizes fit in a `usize`.
pub open spec fn all_fit(e: Seq<Box<dyn TLSExtension>>) -> bool {
    forall|i: int| 0 <= i < e.len() ==> #[trigger] e[i].fits()
}

/// The texts of a list of strings.
pub open spec fn texts_of(v: Seq<String>) -> Seq<Seq<char>> {
    Seq::new(v.len(), |i: int| v[i]@)
}

/// Chrome's cipher suites, GREASE placeholder first.
pub open spec fn chrome_suite_list() -> Seq<u16> {
    seq![
        GREASE_PLACEHOLDER,
        TLS_AES_128_GCM_SHA256,
        TLS_AES_256_GCM_SHA384,
        TLS_CHACHA20_POLY1305_SHA256,
        TLS_ECDHE_ECDSA_WITH_AES_128_GCM_SHA256,
        TLS_ECDHE_RSA_WITH_AES_128_GCM_SHA256,
        TLS_ECDHE_ECDSA_WITH_AES_256_GCM_SHA384,
        TLS_ECDHE_RSA_WITH_AES_256_GCM_SHA384,
        TLS_ECDHE_ECDSA_WITH_CHACHA20_POLY1305_SHA256,
        TLS_ECDHE_RSA_WITH_CHACHA20_POLY1305_SHA256,
        TLS_ECDHE_RSA_WITH_AES_128_CBC_SHA,
        TLS_ECDHE_RSA_WITH_AES_256_CBC_SHA,
        TLS_RSA_WITH_AES_128_GCM_SHA256,
        TLS_RSA_WITH_AES_256_GCM_SHA384,
        TLS_RSA_WITH_AES_128_CBC_SHA,
        TLS_RSA_WITH_AES_256_CBC_SHA,
    ]
}

/// Chrome's signature algorithms.
pub open spec fn chrome_signature_list() -> Seq<u16> {
    seq![
        ECDSA_WITH_P256_AND_SHA256,
        PSS_WITH_SHA256,
        PKCS1_WITH_SHA256,
        ECDSA_WITH_P384_AND_SHA384,
        PSS_WITH_SHA384,
        PKCS1_WITH_SHA384,
        PSS_WITH_SHA512,
        PKCS1_WITH_SHA512,
    ]
}

/// Chrome's supported versions.
pub open spec fn chrome_version_list() -> Seq<u16> {
    seq![GREASE_PLACEHOLDER, VERSION_TLS13, VERSION_TLS12]
}

/// A ClientHello specification.
pub struct ClientHelloSpec {
    /// Cipher suites, in order.
    pub cipher_suites: Vec<CipherSuiteID>,
    /// Compression methods.
    pub compression_methods: Vec<u8>,
    /// Extensions, in order.
    pub extensions: Vec<Box<dyn TLSExtension>>,
    /// Lowest TLS version.
    pub tls_vers_min: u16,
    /// Highest TLS version.
    pub tls_vers_max: u16,
    /// Data of the extensions (SNI, ALPN and so on), where known.
    pub metadata: Option<SpecMetadata>,
}

/// Builds a [`ClientHelloSpec`] step by step.
pub struct ClientHelloSpecBuilder {
    cipher_suites: Vec<u16>,
    compression_methods: Vec<u8>,
    extensions: Vec<Box<dyn TLSExtension>>,
    tls_vers_min: u16,
    tls_vers_max: u16,
}

impl ClientHelloSpecBuilder {
    /// The cipher suites set so far.
    pub closed spec fn suites(&self) -> Seq<u16> {
        self.cipher_suites@
    }

    /// The compression methods set so far.
    pub closed spec fn compressions(&self) -> Seq<u8> {
        self.compression_methods@
    }

    /// The extensions set so far.
    pub closed spec fn exts(&self) -> Seq<Box<dyn TLSExtension>> {
        self.extensions@
    }

    /// The TLS version range set so far.
    pub closed spec fn versions(&self) -> (u16, u16) {
        (self.tls_vers_min, self.tls_vers_max)
    }

    /// A builder with nothing set.
    pub fn new() -> (r: Self)
        ensures
            r.suites() == Seq::<u16>::empty(),
            r.compressions() == Seq::<u8>::empty(),
            r.exts() == Seq::<Box<dyn TLSExtension>>::empty(),
            r.versions() == (0u16, 0u16),
    {
        ClientHelloSpecBuilder {
            cipher_suites: Vec::new(),
            compression_methods: Vec::new(),
            extensions: Vec::new(),
            tls_vers_min: 0,
            tls_vers_max: 0,
        }
    }

    /// Sets the cipher suites.
    pub fn cipher_suites(self, suites: Vec<u16>) -> (r: Self)
        ensures
            r.suites() == suites@,
            r.compressions() == self.compressions(),
            r.exts() == self.exts(),
            r.versions() == self.versions(),
    {
        ClientHelloSpecBuilder { cipher_suites: suites, ..self }
    }

    /// Adds a cipher suite at the end.
    pub fn add_cipher_suite(self, suite: u16) -> (r: Self)
        ensures
            r.suites() == self.suites().push(suite),
            r.compressions() == self.compressions(),
            r.exts() == self.exts(),
            r.versions() == self.versions(),
    {
        let mut s = self;
        s.cipher_suites.push(suite);
        s
    }

    /// Sets the compression methods.
    pub fn compression_methods(self, methods: Vec<u8>) -> (r: Self)
        ensures
            r.suites() == self.suites(),
            r.compressions() == methods@,
            r.exts() == self.exts(),
            r.versions() == self.versions(),
    {
        ClientHelloSpecBuilder { compression_methods: methods, ..self }
    }

    /// Adds an extension at the end.
    pub fn add_extension(self, ext: Box<dyn TLSExtension>) -> (r: Self)
        ensures
            r.suites() == self.suites(),
            r.compressions() == self.compressions(),
            r.exts() == self.exts().push(ext),
            r.versions() == self.versions(),
    {
        let mut s = self;
        s.extensions.push(ext);
        s
    }

    /// Sets the extensions.
    pub fn extensions(self, exts: Vec<Box<dyn TLSExtension>>) -> (r: Self)
        ensures
            r.suites() == self.suites(),
            r.compressions() == self.compressions(),
            r.exts() == exts@,
            r.versions() == self.versions(),
    {
        ClientHelloSpecBuilder { extensions: exts, ..self }
    }

    /// Sets the TLS version range.
    pub fn tls_versions(self, min: u16, max: u16) -> (r: Self)
        ensures
            r.suites() == self.suites(),
            r.compressions() == self.compressions(),
            r.exts() == self.exts(),
            r.versions() == (min, max),
    {
        ClientHelloSpecBuilder { tls_vers_min: min, tls_vers_max: max, ..self }
    }

    /// The specification, without metadata.
    pub fn build(self) -> (r: ClientHelloSpec)
        ensures
            r.cipher_suites@ == self.suites(),
            r.compression_methods@ == self.compressions(),
            r.extensions@ == self.exts(),
            (r.tls_vers_min, r.tls_vers_max) == self.versions(),
            r.metadata is None,
    {
        ClientHelloSpec {
            cipher_suites: self.cipher_suites,
            compression_methods: self.compression_methods,
            extensions: self.extensions,
            tls_vers_min: self.tls_vers_min,
            tls_vers_max: self.tls_vers_max,
            metadata: None,
        }
    }

    /// Chrome 136's cipher suites.
    pub fn chrome_136_cipher_suites() -> (r: Vec<u16>)
        ensures
            r@ == chrome_suite_list(),
    {
        Self::chrome_cipher_suites()
    }

    /// Chrome 133's cipher suites.
    pub fn chrome_cipher_suites() -> (r: Vec<u16>)
        ensures
            r@ == chrome_suite_list(),
    {
        let r: Vec<u16> = vec![
            GREASE_PLACEHOLDER,
            TLS_AES_128_GCM_SHA256,
            TLS_AES_256_GCM_SHA384,
            TLS_CHACHA20_POLY1305_SHA256,
            TLS_ECDHE_ECDSA_WITH_AES_128_GCM_SHA256,
            TLS_ECDHE_RSA_WITH_AES_128_GCM_SHA256,
            TLS_ECDHE_ECDSA_WITH_AES_256_GCM_SHA384,
            TLS_ECDHE_RSA_WITH_AES_256_GCM_SHA384,
            TLS_ECDHE_ECDSA_WITH_CHACHA20_POLY1305_SHA256,
            TLS_ECDHE_RSA_WITH_CHACHA20_POLY1305_SHA256,
            TLS_ECDHE_RSA_WITH_AES_128_CBC_SHA,
            TLS_ECDHE_RSA_WITH_AES_256_CBC_SHA,
            TLS_RSA_WITH_AES_128_GCM_SHA256,
            TLS_RSA_WITH_AES_256_GCM_SHA384,
            TLS_RSA_WITH_AES_128_CBC_SHA,
            TLS_RSA_WITH_AES_256_CBC_SHA,
        ];
        assert(r@ =~= chrome_suite_list());
        r
    }

    /// Chrome's signature algorithms.
    pub fn chrome_signature_algorithms() -> (r: &'static [u16])
        ensures
            r@ == chrome_signature_list(),
    {
        assert(CHROME_SIGNATURE_ALGORITHMS@ =~= chrome_signature_list());
        &CHROME_SIGNATURE_ALGORITHMS
    }

    /// Chrome's ALPN protocols: `h2`, then `http/1.1`.
    pub fn chrome_alpn_protocols() -> (r: &'static [&'static str])
        ensures
            r@.len() == 2,
            r@[0]@ == "h2"@,
            r@[1]@ == "http/1.1"@,
    {
        &CHROME_ALPN_PROTOCOLS
    }
}

/// Chrome's signature algorithms.
const CHROME_SIGNATURE_ALGORITHMS: [u16; 8] = [
    ECDSA_WITH_P256_AND_SHA256,
    PSS_WITH_SHA256,
    PKCS1_WITH_SHA256,
    ECDSA_WITH_P384_AND_SHA384,
    PSS_WITH_SHA384,
    PKCS1_WITH_SHA384,
    PSS_WITH_SHA512,
    PKCS1_WITH_SHA512,
];

/// Chrome's ALPN protocols.
const CHROME_ALPN_PROTOCOLS: [&'static str; 2] = ["h2", "http/1.1"];

/// Metadata of Chrome's ClientHello: ALPN `h2` and `http/1.1`, these
/// groups, uncompressed points, Chrome's signature algorithms and versions.
pub open spec fn chrome_metadata_is(m: SpecMetadata, curves: Seq<u16>) -> bool {
    &&& m.wf()
    &&& (m.get(EXT_TYPE_APPLICATION_LAYER_PROTOCOL_NEGOTIATION) matches Some(x) && (x.alpn matches Some(a)
        && texts_of(a@) == seq!["h2"@, "http/1.1"@]))
    &&& (m.get(EXT_TYPE_SUPPORTED_GROUPS) matches Some(x) && (x.elliptic_curves matches Some(c) && c@ == curves))
    &&& (m.get(EXT_TYPE_EC_POINT_FORMATS) matches Some(x) && (x.elliptic_curve_point_formats matches Some(f)
        && f@ == seq![POINT_FORMAT_UNCOMPRESSED]))
    &&& (m.get(EXT_TYPE_SIGNATURE_ALGORITHMS) matches Some(x) && (x.signature_algorithms matches Some(g)
        && g@ == chrome_signature_list()))
    &&& (m.get(EXT_TYPE_SUPPORTED_VERSIONS) matches Some(x) && (x.supported_versions matches Some(v)
        && v@ == chrome_version_list()))
}

/// A copy of a list of code points.
fn copy_u16s(s: &[u16]) -> (r: Vec<u16>)
    ensures
        r@ == s@,
{
    vstd::slice::slice_to_vec(s)
}

impl ClientHelloSpecBuilder {
    /// Chrome's metadata with these groups.
    fn chrome_metadata(curves: Vec<u16>) -> (r: SpecMetadata)
        ensures
            chrome_metadata_is(r, curves@),
    {
        let mut metadata: SpecMetadata = SpecMetadata::new();
        let alpn: Vec<String> = vec![String::from_str("h2"), String::from_str("http/1.1")];
        assert(texts_of(alpn@) =~= seq!["h2"@, "http/1.1"@]);
        metadata.set_alpn(alpn);
        let ghost c = curves@;
        metadata.set_elliptic_curves(curves);
        let formats: Vec<u8> = vec![POINT_FORMAT_UNCOMPRESSED];
        assert(formats@ =~= seq![POINT_FORMAT_UNCOMPRESSED]);
        metadata.set_elliptic_curve_point_formats(formats);
        metadata.set_signature_algorithms(copy_u16s(Self::chrome_signature_algorithms()));
        let versions: Vec<u16> = vec![GREASE_PLACEHOLDER, VERSION_TLS13, VERSION_TLS12];
        assert(versions@ =~= chrome_version_list());
        metadata.set_supported_versions(versions);
        metadata
    }

    /// Chrome 103's extensions (as `chrome_103_extension_list` lists them)
    /// and metadata (groups without X25519MLKEM768).
    pub fn chrome_103_extensions() -> (r: (Vec<Box<dyn TLSExtension>>, SpecMetadata))
        ensures
            r.0@.len() == 18,
            chrome_metadata_is(r.1, seq![GREASE_PLACEHOLDER, X25519, CURVE_P256, CURVE_P384]),
    {
        let curves: Vec<u16> = vec![GREASE_PLACEHOLDER, X25519, CURVE_P256, CURVE_P384];
        let metadata: SpecMetadata = Self::chrome_metadata(curves);
        (chrome_103_extension_list(), metadata)
    }
}

/// Chrome 103's extension list: GREASE, SNI (empty), extended master
/// secret, renegotiation info, groups (GREASE, X25519, P-256, P-384),
/// uncompressed points, session ticket, ALPN (`h2`, `http/1.1`), status
/// request, Chrome's signature algorithms, SCT, key shares (GREASE, X25519),
/// PSK mode DHE, Chrome's versions, Brotli certificate compression, ALPS
/// (`h2`), GREASE and padding. Verus keeps no more than the count of trait
/// objects moved into a vector, so the contract states the count.
fn chrome_103_extension_list() -> (r: Vec<Box<dyn TLSExtension>>)
    ensures
        r@.len() == 18,
{
    let e0: Box<dyn TLSExtension> = Box::new(UtlsGREASEExtension::new());
    let e1: Box<dyn TLSExtension> = Box::new(SNIExtension::new(String::new()));
    let e2: Box<dyn TLSExtension> = Box::new(ExtendedMasterSecretExtension);
    let e3: Box<dyn TLSExtension> = Box::new(RenegotiationInfoExtension::new(RENEGOTIATE_ONCE_AS_CLIENT));
    let curves: Vec<u16> = vec![GREASE_PLACEHOLDER, X25519, CURVE_P256, CURVE_P384];
    assert(curves@ =~= seq![GREASE_PLACEHOLDER, X25519, CURVE_P256, CURVE_P384]);
    let e4: Box<dyn TLSExtension> = Box::new(SupportedCurvesExtension::new(curves));
    let points: Vec<u8> = vec![POINT_FORMAT_UNCOMPRESSED];
    assert(points@ =~= seq![POINT_FORMAT_UNCOMPRESSED]);
    let e5: Box<dyn TLSExtension> = Box::new(SupportedPointsExtension::new(points));
    let e6: Box<dyn TLSExtension> = Box::new(SessionTicketExtension);
    let alpn: Vec<String> = vec![String::from_str("h2"), String::from_str("http/1.1")];
    let e7: Box<dyn TLSExtension> = Box::new(ALPNExtension::new(alpn));
    let e8: Box<dyn TLSExtension> = Box::new(StatusRequestExtension);
    let e9: Box<dyn TLSExtension> = Box::new(SignatureAlgorithmsExtension::new(
        copy_u16s(ClientHelloSpecBuilder::chrome_signature_algorithms()),
    ));
    let e10: Box<dyn TLSExtension> = Box::new(SCTExtension);
    let shares: Vec<KeyShare> = vec![
        KeyShare { group: GREASE_PLACEHOLDER, data: vec![0u8] },
        KeyShare { group: X25519, data: Vec::new() },
    ];
    let e11: Box<dyn TLSExtension> = Box::new(KeyShareExtension::new(shares));
    let modes: Vec<u8> = vec![PSK_MODE_DHE];
    assert(modes@ =~= seq![PSK_MODE_DHE]);
    let e12: Box<dyn TLSExtension> = Box::new(PSKKeyExchangeModesExtension::new(modes));
    let versions: Vec<u16> = vec![GREASE_PLACEHOLDER, VERSION_TLS13, VERSION_TLS12];
    assert(versions@ =~= chrome_version_list());
    let e13: Box<dyn TLSExtension> = Box::new(SupportedVersionsExtension::new(versions));
    let algorithms: Vec<u16> = vec![CERT_COMPRESSION_BROTLI];
    assert(algorithms@ =~= seq![CERT_COMPRESSION_BROTLI]);
    let e14: Box<dyn TLSExtension> = Box::new(UtlsCompressCertExtension::new(algorithms));
    let e15: Box<dyn TLSExtension> = Box::new(ApplicationSettingsExtensionNew::new(vec![String::from_str("h2")]));
    let e16: Box<dyn TLSExtension> = Box::new(UtlsGREASEExtension::new());
    let e17: Box<dyn TLSExtension> = Box::new(UtlsPaddingExtension::new());
    vec![e0, e1, e2, e3, e4, e5, e6, e7, e8, e9, e10, e11, e12, e13, e14, e15, e16, e17]
}

/// Firefox 133's cipher suites.
pub open spec fn firefox_suite_list() -> Seq<u16> {
    seq![
        TLS_AES_256_GCM_SHA384,
        TLS_AES_128_GCM_SHA256,
        TLS_CHACHA20_POLY1305_SHA256,
        TLS_ECDHE_ECDSA_WITH_AES_256_GCM_SHA384,
        TLS_ECDHE_ECDSA_WITH_AES_128_GCM_SHA256,
        TLS_ECDHE_RSA_WITH_AES_256_GCM_SHA384,
        TLS_ECDHE_RSA_WITH_AES_128_GCM_SHA256,
        TLS_ECDHE_ECDSA_WITH_CHACHA20_POLY1305_SHA256,
        TLS_ECDHE_RSA_WITH_CHACHA20_POLY1305_SHA256,
    ]
}

/// Safari 16.0's cipher suites.
pub open spec fn safari_suite_list() -> Seq<u16> {
    seq![
        TLS_AES_128_GCM_SHA256,
        TLS_AES_256_GCM_SHA384,
        TLS_CHACHA20_POLY1305_SHA256,
        TLS_ECDHE_ECDSA_WITH_AES_128_GCM_SHA256,
        TLS_ECDHE_RSA_WITH_AES_128_GCM_SHA256,
        TLS_ECDHE_ECDSA_WITH_AES_256_GCM_SHA384,
        TLS_ECDHE_RSA_WITH_AES_256_GCM_SHA384,
    ]
}

/// Whether `s` is Chrome 103's specification: Chrome's cipher suites, no
/// compression, Chrome 103's eighteen extensions, no version range, and
/// Chrome's metadata (with X25519MLKEM768 among the groups).
pub open spec fn is_chrome_103_spec(s: ClientHelloSpec) -> bool {
    &&& s.cipher_suites@ == chrome_suite_list()
    &&& s.compression_methods@ == seq![COMPRESSION_NONE]
    &&& s.extensions@.len() == 18
    &&& s.tls_vers_min == 0 && s.tls_vers_max == 0
    &&& (s.metadata matches Some(m) && chrome_metadata_is(
        m,
        seq![GREASE_PLACEHOLDER, X25519_MLKEM768, X25519, CURVE_P256, CURVE_P384],
    ))
}

/// Whether `s` is Firefox 133's specification: its cipher suites, no
/// compression, six extensions, no version range and no metadata.
pub open spec fn is_firefox_133_spec(s: ClientHelloSpec) -> bool {
    &&& s.cipher_suites@ == firefox_suite_list()
    &&& s.compression_methods@ == seq![COMPRESSION_NONE]
    &&& s.extensions@.len() == 6
    &&& s.tls_vers_min == 0 && s.tls_vers_max == 0
    &&& s.metadata is None
}

/// Whether `s` is Safari 16.0's specification: its cipher suites, no
/// compression, five extensions, no version range and no metadata.
pub open spec fn is_safari_16_0_spec(s: ClientHelloSpec) -> bool {
    &&& s.cipher_suites@ == safari_suite_list()
    &&& s.compression_methods@ == seq![COMPRESSION_NONE]
    &&& s.extensions@.len() == 5
    &&& s.tls_vers_min == 0 && s.tls_vers_max == 0
    &&& s.metadata is None
}

impl ClientHelloSpec {
    /// An empty specification.
    pub fn new() -> (r: Self)
        ensures
            r.cipher_suites@.len() == 0,
            r.compression_methods@.len() == 0,
            r.extensions@.len() == 0,
            r.tls_vers_min == 0,
            r.tls_vers_max == 0,
            r.metadata is None,
    {
        ClientHelloSpec {
            cipher_suites: Vec::new(),
            compression_methods: Vec::new(),
            extensions: Vec::new(),
            tls_vers_min: 0,
            tls_vers_max: 0,
            metadata: None,
        }
    }

    /// Chrome 103: Chrome 133's cipher suites and metadata, with Chrome 103's
    /// extensions (no X25519MLKEM768 group or key share).
    pub fn chrome_103() -> (r: Self)
        ensures
            is_chrome_103_spec(r),
    {
        let curves: Vec<u16> = vec![GREASE_PLACEHOLDER, X25519_MLKEM768, X25519, CURVE_P256, CURVE_P384];
        assert(curves@ =~= seq![GREASE_PLACEHOLDER, X25519_MLKEM768, X25519, CURVE_P256, CURVE_P384]);
        let metadata: SpecMetadata = ClientHelloSpecBuilder::chrome_metadata(curves);
        let compression: Vec<u8> = vec![COMPRESSION_NONE];
        assert(compression@ =~= seq![COMPRESSION_NONE]);
        let mut spec: ClientHelloSpec = ClientHelloSpecBuilder::new()
            .cipher_suites(ClientHelloSpecBuilder::chrome_cipher_suites())
            .compression_methods(compression)
            .extensions(chrome_103_extension_list())
            .build();
        spec.metadata = Some(metadata);
        spec
    }

    /// Firefox 133: groups (P-256, P-384, P-521, X25519), uncompressed
    /// points, its signature algorithms, ALPN (`h2`, `http/1.1`), extended
    /// master secret and TLS 1.3 as the supported version.
    pub fn firefox_133() -> (r: Self)
        ensures
            is_firefox_133_spec(r),
    {
        let mut spec: ClientHelloSpec = Self::new();
        let suites: Vec<u16> = vec![
            TLS_AES_256_GCM_SHA384,
            TLS_AES_128_GCM_SHA256,
            TLS_CHACHA20_POLY1305_SHA256,
            TLS_ECDHE_ECDSA_WITH_AES_256_GCM_SHA384,
            TLS_ECDHE_ECDSA_WITH_AES_128_GCM_SHA256,
            TLS_ECDHE_RSA_WITH_AES_256_GCM_SHA384,
            TLS_ECDHE_RSA_WITH_AES_128_GCM_SHA256,
            TLS_ECDHE_ECDSA_WITH_CHACHA20_POLY1305_SHA256,
            TLS_ECDHE_RSA_WITH_CHACHA20_POLY1305_SHA256,
        ];
        assert(suites@ =~= firefox_suite_list());
        spec.cipher_suites = suites;
        let compression: Vec<u8> = vec![COMPRESSION_NONE];
        assert(compression@ =~= seq![COMPRESSION_NONE]);
        spec.compression_methods = compression;
        let e0: Box<dyn TLSExtension> = Box::new(SupportedCurvesExtension::new(
            vec![CURVE_P256, CURVE_P384, SECP521R1, X25519],
        ));
        let e1: Box<dyn TLSExtension> = Box::new(SupportedPointsExtension::new(vec![POINT_FORMAT_UNCOMPRESSED]));
        let e2: Box<dyn TLSExtension> = Box::new(SignatureAlgorithmsExtension::new(
            vec![
                PSS_WITH_SHA256,
                PSS_WITH_SHA384,
                PSS_WITH_SHA512,
                PKCS1_WITH_SHA256,
                PKCS1_WITH_SHA384,
                PKCS1_WITH_SHA512,
                ECDSA_WITH_P256_AND_SHA256,
                ECDSA_WITH_P384_AND_SHA384,
                ECDSA_WITH_P521_AND_SHA512,
            ],
        ));
        let e3: Box<dyn TLSExtension> = Box::new(ALPNExtension::new(
            vec![String::from_str("h2"), String::from_str("http/1.1")],
        ));
        let e4: Box<dyn TLSExtension> = Box::new(ExtendedMasterSecretExtension);
        let e5: Box<dyn TLSExtension> = Box::new(SupportedVersionsExtension::new(vec![VERSION_TLS13]));
        spec.extensions = vec![e0, e1, e2, e3, e4, e5];
        spec
    }

    /// Safari 16.0: groups (P-256, P-384, X25519), uncompressed points, its
    /// signature algorithms, ALPN (`h2`, `http/1.1`) and TLS 1.3 as the
    /// supported version.
    pub fn safari_16_0() -> (r: Self)
        ensures
            is_safari_16_0_spec(r),
    {
        let mut spec: ClientHelloSpec = Self::new();
        let suites: Vec<u16> = vec![
            TLS_AES_128_GCM_SHA256,
            TLS_AES_256_GCM_SHA384,
            TLS_CHACHA20_POLY1305_SHA256,
            TLS_ECDHE_ECDSA_WITH_AES_128_GCM_SHA256,
            TLS_ECDHE_RSA_WITH_AES_128_GCM_SHA256,
            TLS_ECDHE_ECDSA_WITH_AES_256_GCM_SHA384,
            TLS_ECDHE_RSA_WITH_AES_256_GCM_SHA384,
        ];
        assert(suites@ =~= safari_suite_list());
        spec.cipher_suites = suites;
        let compression: Vec<u8> = vec![COMPRESSION_NONE];
        assert(compression@ =~= seq![COMPRESSION_NONE]);
        spec.compression_methods = compression;
        let e0: Box<dyn TLSExtension> = Box::new(SupportedCurvesExtension::new(vec![CURVE_P256, CURVE_P384, X25519]));
        let e1: Box<dyn TLSExtension> = Box::new(SupportedPointsExtension::new(vec![POINT_FORMAT_UNCOMPRESSED]));
        let e2: Box<dyn TLSExtension> = Box::new(SignatureAlgorithmsExtension::new(
            vec![
                PKCS1_WITH_SHA256,
                PKCS1_WITH_SHA384,
                PKCS1_WITH_SHA512,
                ECDSA_WITH_P256_AND_SHA256,
                ECDSA_WITH_P384_AND_SHA384,
            ],
        ));
        let e3: Box<dyn TLSExtension> = Box::new(ALPNExtension::new(
            vec![String::from_str("h2"), String::from_str("http/1.1")],
        ));
        let e4: Box<dyn TLSExtension> = Box::new(SupportedVersionsExtension::new(vec![VERSION_TLS13]));
        spec.extensions = vec![e0, e1, e2, e3, e4];
        spec
    }
}

/// Chrome 103's specification, as a factory result.
pub fn chrome_103_spec() -> (r: Result<ClientHelloSpec, String>)
    ensures
        r matches Ok(s) && is_chrome_103_spec(s),
{
    Ok(ClientHelloSpec::chrome_103())
}

/// Firefox 133's specification, as a factory result.
pub fn firefox_133_spec() -> (r: Result<ClientHelloSpec, String>)
    ensures
        r matches Ok(s) && is_firefox_133_spec(s),
{
    Ok(ClientHelloSpec::firefox_133())
}

/// Safari 16.0's specification, as a factory result.
pub fn safari_16_0_spec() -> (r: Result<ClientHelloSpec, String>)
    ensures
        r matches Ok(s) && is_safari_16_0_spec(s),
{
    Ok(ClientHelloSpec::safari_16_0())
}

} // verus!

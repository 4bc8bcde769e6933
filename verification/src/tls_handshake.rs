//! TLS record layer, handshake layer and ClientHello serialization.
use vstd::prelude::*;
use vstd::string::StringSliceAdditionalSpecFns;
use crate::text::{decimal, hex_padded, push_decimal, push_hex_padded};
use crate::cookie::{now_nanos, NANOS_PER_SEC};
use crate::tls_config::{all_fit, ClientHelloSpec};
use crate::tls_extensions::{zeros, TLSExtension};

verus! {

broadcast use vstd::string::group_string_axioms;

/// Two bytes, most significant first, of `v` taken modulo 2^16.
pub open spec fn be16_bytes(v: nat) -> Seq<u8> {
    seq![((v / 256) % 256) as u8, (v % 256) as u8]
}

/// Three bytes, most significant first, of `v` taken modulo 2^24.
pub open spec fn be24_bytes(v: nat) -> Seq<u8> {
    seq![((v / 65536) % 256) as u8, ((v / 256) % 256) as u8, (v % 256) as u8]
}

/// Appends two big-endian bytes of `v` modulo 2^16.
pub(crate) fn push_be16(out: &mut Vec<u8>, v: usize)
    ensures
        final(out)@ == old(out)@ + be16_bytes(v as nat),
{
    out.push(((v / 256) % 256) as u8);
    out.push((v % 256) as u8);
    assert(final(out)@ =~= old(out)@ + be16_bytes(v as nat));
}

/// Appends all of `src` to `out`.
pub(crate) fn push_all(out: &mut Vec<u8>, src: &[u8])
    ensures
        final(out)@ == old(out)@ + src@,
{
    let mut i: usize = 0;
    while i < src.len()
        invariant
            i <= src@.len(),
            out@ == old(out)@ + src@.subrange(0, i as int),
        decreases src@.len() - i,
    {
        out.push(src[i]);
        i = i + 1;
        assert(out@ =~= old(out)@ + src@.subrange(0, i as int));
    }
    assert(src@.subrange(0, i as int) =~= src@);
}

/// TLS handshake message type.
#[derive(Debug, Clone, Copy, PartialEq, Eq, Structural)]
pub enum TLSHandshakeType {
    ClientHello,
    ServerHello,
    NewSessionTicket,
    Certificate,
    ServerKeyExchange,
    CertificateRequest,
    ServerHelloDone,
    CertificateVerify,
    ClientKeyExchange,
    Finished,
}

/// Wire code of a handshake type.
pub open spec fn handshake_code(t: TLSHandshakeType) -> u8 {
    match t {
        TLSHandshakeType::ClientHello => 1,
        TLSHandshakeType::ServerHello => 2,
        TLSHandshakeType::NewSessionTicket => 4,
        TLSHandshakeType::Certificate => 11,
        TLSHandshakeType::ServerKeyExchange => 12,
        TLSHandshakeType::CertificateRequest => 13,
        TLSHandshakeType::ServerHelloDone => 14,
        TLSHandshakeType::CertificateVerify => 15,
        TLSHandshakeType::ClientKeyExchange => 16,
        TLSHandshakeType::Finished => 20,
    }
}

/// Handshake type with wire code `b`, if any.
pub open spec fn handshake_type_of(b: u8) -> Option<TLSHandshakeType> {
    if b == 1 {
        Some(TLSHandshakeType::ClientHello)
    } else if b == 2 {
        Some(TLSHandshakeType::ServerHello)
    } else if b == 4 {
        Some(TLSHandshakeType::NewSessionTicket)
    } else if b == 11 {
        Some(TLSHandshakeType::Certificate)
    } else if b == 12 {
        Some(TLSHandshakeType::ServerKeyExchange)
    } else if b == 13 {
        Some(TLSHandshakeType::CertificateRequest)
    } else if b == 14 {
        Some(TLSHandshakeType::ServerHelloDone)
    } else if b == 15 {
        Some(TLSHandshakeType::CertificateVerify)
    } else if b == 16 {
        Some(TLSHandshakeType::ClientKeyExchange)
    } else if b == 20 {
        Some(TLSHandshakeType::Finished)
    } else {
        None
    }
}

impl TLSHandshakeType {
    /// Wire code.
    pub fn as_u8(&self) -> (r: u8)
        ensures
            r == handshake_code(*self),
    {
        match self {
            TLSHandshakeType::ClientHello => 1,
            TLSHandshakeType::ServerHello => 2,
            TLSHandshakeType::NewSessionTicket => 4,
            TLSHandshakeType::Certificate => 11,
            TLSHandshakeType::ServerKeyExchange => 12,
            TLSHandshakeType::CertificateRequest => 13,
            TLSHandshakeType::ServerHelloDone => 14,
            TLSHandshakeType::CertificateVerify => 15,
            TLSHandshakeType::ClientKeyExchange => 16,
            TLSHandshakeType::Finished => 20,
        }
    }

    /// Handshake type of a wire code.
    fn from_code(b: u8) -> (r: Option<Self>)
        ensures
            r == handshake_type_of(b),
    {
        match b {
            1 => Some(TLSHandshakeType::ClientHello),
            2 => Some(TLSHandshakeType::ServerHello),
            4 => Some(TLSHandshakeType::NewSessionTicket),
            11 => Some(TLSHandshakeType::Certificate),
            12 => Some(TLSHandshakeType::ServerKeyExchange),
            13 => Some(TLSHandshakeType::CertificateRequest),
            14 => Some(TLSHandshakeType::ServerHelloDone),
            15 => Some(TLSHandshakeType::CertificateVerify),
            16 => Some(TLSHandshakeType::ClientKeyExchange),
            20 => Some(TLSHandshakeType::Finished),
            _ => None,
        }
    }
}

/// Serialized handshake message: type, 24-bit body length, body.
pub open spec fn handshake_bytes(t: TLSHandshakeType, body: Seq<u8>) -> Seq<u8> {
    seq![handshake_code(t)] + be24_bytes(body.len()) + body
}

/// 24-bit big-endian length stored at `s[1..4]`.
pub open spec fn be24_at(s: Seq<u8>, i: int) -> int {
    s[i] * 65536 + s[i + 1] * 256 + s[i + 2]
}

/// Decoding of a handshake message at the front of `s`: its type, body and
/// the number of bytes it takes.
pub open spec fn parse_handshake(s: Seq<u8>) -> Option<(TLSHandshakeType, Seq<u8>, int)> {
    if s.len() < 4 {
        None
    } else {
        match handshake_type_of(s[0]) {
            None => None,
            Some(t) => {
                let len = be24_at(s, 1);
                if s.len() < 4 + len {
                    None
                } else {
                    Some((t, s.subrange(4, 4 + len), 4 + len))
                }
            },
        }
    }
}

/// Error text of a handshake decoding that fails.
pub open spec fn handshake_error(s: Seq<u8>) -> Seq<char> {
    if s.len() < 4 {
        "countdatatoo short，unable toParsehandshakemessage"@
    } else if handshake_type_of(s[0]) is None {
        "not知handshaketype: "@ + decimal(s[0] as nat)
    } else {
        "countdata不complete，need "@ + decimal((4 + be24_at(s, 1)) as nat) + " bytes，actualonly "@
            + decimal(s.len()) + " bytes"@
    }
}

/// TLS handshake message
#[derive(Debug, Clone)]
pub struct TLSHandshake {
    /// message type
    pub msg_type: TLSHandshakeType,
    /// message body
    pub body: Vec<u8>,
}

impl TLSHandshake {
    /// A handshake message of the given type and body.
    pub fn new(msg_type: TLSHandshakeType, body: Vec<u8>) -> (r: Self)
        ensures
            r.msg_type == msg_type,
            r.body == body,
    {
        TLSHandshake { msg_type, body }
    }

    /// A ClientHello handshake message.
    pub fn client_hello(body: Vec<u8>) -> (r: Self)
        ensures
            r.msg_type == TLSHandshakeType::ClientHello,
            r.body == body,
    {
        Self::new(TLSHandshakeType::ClientHello, body)
    }

    /// Type byte, 24-bit length (the body length modulo 2^24) and body.
    pub fn to_bytes(&self) -> (r: Vec<u8>)
        ensures
            r@ == handshake_bytes(self.msg_type, self.body@),
    {
        let mut bytes: Vec<u8> = Vec::new();
        bytes.push(self.msg_type.as_u8());
        let length: usize = self.body.len();
        bytes.push(((length / 65536) % 256) as u8);
        bytes.push(((length / 256) % 256) as u8);
        bytes.push((length % 256) as u8);
        push_all(&mut bytes, self.body.as_slice());
        assert(bytes@ =~= handshake_bytes(self.msg_type, self.body@));
        bytes
    }

    /// Decodes a handshake message at the front of `data`, with the number of
    /// bytes it takes.
    pub fn from_bytes(data: &[u8]) -> (r: Result<(Self, usize), String>)
        ensures
            r is Ok <==> parse_handshake(data@) is Some,
            r matches Ok((h, n)) ==> parse_handshake(data@) == Some((h.msg_type, h.body@, n as int)),
            r matches Err(e) ==> e@ == handshake_error(data@),
    {
        if data.len() < 4 {
            return Err(String::from_str("countdatatoo short，unable toParsehandshakemessage"));
        }
        let msg_type = match TLSHandshakeType::from_code(data[0]) {
            Some(t) => t,
            None => {
                let mut e: String = String::from_str("not知handshaketype: ");
                push_decimal(&mut e, data[0] as u64);
                return Err(e);
            },
        };
        let length: usize = (data[1] as usize) * 65536 + (data[2] as usize) * 256 + (data[3] as usize);
        if data.len() - 4 < length {
            let mut e: String = String::from_str("countdata不complete，need ");
            push_decimal(&mut e, (4 + length) as u64);
            e.append(" bytes，actualonly ");
            push_decimal(&mut e, data.len() as u64);
            e.append(" bytes");
            return Err(e);
        }
        let body: Vec<u8> = vstd::slice::slice_to_vec(&data[4..4 + length]);
        Ok((Self::new(msg_type, body), 4 + length))
    }
}

/// Decoding what serialization wrote gives back the message, whatever follows
/// it, as long as the body length fits the 24-bit length field.
pub proof fn lemma_handshake_roundtrip(t: TLSHandshakeType, body: Seq<u8>, rest: Seq<u8>)
    requires
        body.len() < 0x1000000,
    ensures
        parse_handshake(handshake_bytes(t, body) + rest) == Some((t, body, 4 + body.len() as int)),
{
    let s = handshake_bytes(t, body) + rest;
    assert(s[0] == handshake_code(t));
    assert(be24_at(s, 1) == body.len()) by (nonlinear_arith)
        requires
            s[1] == ((body.len() / 65536) % 256) as u8,
            s[2] == ((body.len() / 256) % 256) as u8,
            s[3] == (body.len() % 256) as u8,
            body.len() < 0x1000000,
    {
    }
    assert(s.subrange(4, 4 + body.len() as int) =~= body);
}

/// A decoded message serializes back to the bytes it was decoded from.
pub proof fn lemma_handshake_reencode(s: Seq<u8>)
    requires
        parse_handshake(s) is Some,
    ensures
        ({
            let (t, body, n) = parse_handshake(s).unwrap();
            handshake_bytes(t, body) == s.subrange(0, n)
        }),
{
    let (t, body, n) = parse_handshake(s).unwrap();
    let len = be24_at(s, 1);
    assert(((len / 65536) % 256) as u8 == s[1] && ((len / 256) % 256) as u8 == s[2] && (len % 256) as u8 == s[3]) by (nonlinear_arith)
        requires
            len == s[1] * 65536 + s[2] * 256 + s[3],
            0 <= s[1] < 256,
            0 <= s[2] < 256,
            0 <= s[3] < 256,
    {
    }
    assert(handshake_code(t) == s[0]);
    assert(handshake_bytes(t, body) =~= s.subrange(0, n));
}

/// TLS record content type.
#[derive(Debug, Clone, Copy, PartialEq, Eq, Structural)]
pub enum TLSRecordType {
    ChangeCipherSpec,
    Alert,
    Handshake,
    ApplicationData,
}

/// Wire code of a record type.
pub open spec fn record_code(t: TLSRecordType) -> u8 {
    match t {
        TLSRecordType::ChangeCipherSpec => 20,
        TLSRecordType::Alert => 21,
        TLSRecordType::Handshake => 22,
        TLSRecordType::ApplicationData => 23,
    }
}

/// Record type with wire code `b`, if any.
pub open spec fn record_type_of(b: u8) -> Option<TLSRecordType> {
    if b == 20 {
        Some(TLSRecordType::ChangeCipherSpec)
    } else if b == 21 {
        Some(TLSRecordType::Alert)
    } else if b == 22 {
        Some(TLSRecordType::Handshake)
    } else if b == 23 {
        Some(TLSRecordType::ApplicationData)
    } else {
        None
    }
}

impl TLSRecordType {
    /// Wire code.
    pub fn as_u8(&self) -> (r: u8)
        ensures
            r == record_code(*self),
    {
        match self {
            TLSRecordType::ChangeCipherSpec => 20,
            TLSRecordType::Alert => 21,
            TLSRecordType::Handshake => 22,
            TLSRecordType::ApplicationData => 23,
        }
    }
}

/// Serialized record: type, version, 16-bit fragment length, fragment.
pub open spec fn record_bytes(t: TLSRecordType, version: u16, fragment: Seq<u8>) -> Seq<u8> {
    seq![record_code(t)] + be16_bytes(version as nat) + be16_bytes(fragment.len()) + fragment
}

/// Big-endian 16-bit value at `s[i..i + 2]`.
pub open spec fn be16_at(s: Seq<u8>, i: int) -> int {
    s[i] * 256 + s[i + 1]
}

/// Decoding of a record at the front of `s`: type, version, fragment and
/// the number of bytes it takes.
pub open spec fn parse_record(s: Seq<u8>) -> Option<(TLSRecordType, u16, Seq<u8>, int)> {
    if s.len() < 5 {
        None
    } else {
        match record_type_of(s[0]) {
            None => None,
            Some(t) => {
                let len = be16_at(s, 3);
                if s.len() < 5 + len {
                    None
                } else {
                    Some((t, be16_at(s, 1) as u16, s.subrange(5, 5 + len), 5 + len))
                }
            },
        }
    }
}

/// Error text of a record decoding that fails.
pub open spec fn record_error(s: Seq<u8>) -> Seq<char> {
    if s.len() < 5 {
        "countdatatoo short，unable toParse TLS record"@
    } else if record_type_of(s[0]) is None {
        "not知inside容type: "@ + decimal(s[0] as nat)
    } else {
        "countdata不complete，need "@ + decimal((5 + be16_at(s, 3)) as nat) + " bytes，actualonly "@
            + decimal(s.len()) + " bytes"@
    }
}

/// TLS record
#[derive(Debug, Clone)]
pub struct TLSRecord {
    /// content type
    pub content_type: TLSRecordType,
    /// protocol version (usually TLS 1.0 = 0x0301 for compatibility)
    pub version: u16,
    /// content
    pub fragment: Vec<u8>,
}

impl TLSRecord {
    /// A record of the given type, version and fragment.
    pub fn new(content_type: TLSRecordType, version: u16, fragment: Vec<u8>) -> (r: Self)
        ensures
            r.content_type == content_type,
            r.version == version,
            r.fragment == fragment,
    {
        TLSRecord { content_type, version, fragment }
    }

    /// A handshake record.
    pub fn handshake(version: u16, data: Vec<u8>) -> (r: Self)
        ensures
            r.content_type == TLSRecordType::Handshake,
            r.version == version,
            r.fragment == data,
    {
        Self::new(TLSRecordType::Handshake, version, data)
    }

    /// Type byte, version, 16-bit length (the fragment length modulo 2^16)
    /// and fragment.
    pub fn to_bytes(&self) -> (r: Vec<u8>)
        ensures
            r@ == record_bytes(self.content_type, self.version, self.fragment@),
    {
        let mut bytes: Vec<u8> = Vec::new();
        bytes.push(self.content_type.as_u8());
        push_be16(&mut bytes, self.version as usize);
        push_be16(&mut bytes, self.fragment.len());
        push_all(&mut bytes, self.fragment.as_slice());
        assert(bytes@ =~= record_bytes(self.content_type, self.version, self.fragment@));
        bytes
    }

    /// Decodes a record at the front of `data`, with the number of bytes it takes.
    pub fn from_bytes(data: &[u8]) -> (r: Result<(Self, usize), String>)
        ensures
            r is Ok <==> parse_record(data@) is Some,
            r matches Ok((rec, n)) ==> parse_record(data@) == Some((rec.content_type, rec.version, rec.fragment@, n as int)),
            r matches Err(e) ==> e@ == record_error(data@),
    {
        if data.len() < 5 {
            return Err(String::from_str("countdatatoo short，unable toParse TLS record"));
        }
        let content_type = match data[0] {
            20 => TLSRecordType::ChangeCipherSpec,
            21 => TLSRecordType::Alert,
            22 => TLSRecordType::Handshake,
            23 => TLSRecordType::ApplicationData,
            _ => {
                let mut e: String = String::from_str("not知inside容type: ");
                push_decimal(&mut e, data[0] as u64);
                return Err(e);
            },
        };
        let version: u16 = (data[1] as u16) * 256 + (data[2] as u16);
        let length: usize = (data[3] as usize) * 256 + (data[4] as usize);
        if data.len() - 5 < length {
            let mut e: String = String::from_str("countdata不complete，need ");
            push_decimal(&mut e, (5 + length) as u64);
            e.append(" bytes，actualonly ");
            push_decimal(&mut e, data.len() as u64);
            e.append(" bytes");
            return Err(e);
        }
        let fragment: Vec<u8> = vstd::slice::slice_to_vec(&data[5..5 + length]);
        Ok((Self::new(content_type, version, fragment), 5 + length))
    }
}

/// Decoding what serialization wrote gives back the record, whatever follows
/// it, as long as the fragment length fits the 16-bit length field.
pub proof fn lemma_record_roundtrip(t: TLSRecordType, version: u16, fragment: Seq<u8>, rest: Seq<u8>)
    requires
        fragment.len() < 0x10000,
    ensures
        parse_record(record_bytes(t, version, fragment) + rest) == Some((t, version, fragment, 5 + fragment.len() as int)),
{
    let s = record_bytes(t, version, fragment) + rest;
    assert(s[0] == record_code(t));
    assert(be16_at(s, 1) == version) by (nonlinear_arith)
        requires
            s[1] == ((version / 256) % 256) as u8,
            s[2] == (version % 256) as u8,
            version < 0x10000,
    {
    }
    assert(be16_at(s, 3) == fragment.len()) by (nonlinear_arith)
        requires
            s[3] == ((fragment.len() / 256) % 256) as u8,
            s[4] == (fragment.len() % 256) as u8,
            fragment.len() < 0x10000,
    {
    }
    assert(s.subrange(5, 5 + fragment.len() as int) =~= fragment);
}

/// A decoded record serializes back to the bytes it was decoded from.
pub proof fn lemma_record_reencode(s: Seq<u8>)
    requires
        parse_record(s) is Some,
    ensures
        ({
            let (t, version, fragment, n) = parse_record(s).unwrap();
            record_bytes(t, version, fragment) == s.subrange(0, n)
        }),
{
    let (t, version, fragment, n) = parse_record(s).unwrap();
    let v = be16_at(s, 1);
    let len = be16_at(s, 3);
    assert(((v / 256) % 256) as u8 == s[1] && (v % 256) as u8 == s[2]) by (nonlinear_arith)
        requires
            v == s[1] * 256 + s[2],
            0 <= s[1] < 256,
            0 <= s[2] < 256,
    {
    }
    assert(((len / 256) % 256) as u8 == s[3] && (len % 256) as u8 == s[4]) by (nonlinear_arith)
        requires
            len == s[3] * 256 + s[4],
            0 <= s[3] < 256,
            0 <= s[4] < 256,
    {
    }
    assert(record_code(t) == s[0]);
    assert(record_bytes(t, version, fragment) =~= s.subrange(0, n));
}


/// Modulo 2^16, `v` and `v % 65536` have the same two big-endian bytes.
proof fn lemma_be16_mod(v: nat)
    ensures
        be16_bytes(v) == be16_bytes(v % 65536),
{
    assert((v / 256) % 256 == ((v % 65536) / 256) % 256 && v % 256 == (v % 65536) % 256) by (nonlinear_arith)
    {
        let q = v / 65536;
        let r = v % 65536;
        assert(v == 65536 * q + r);
        assert(v / 256 == 256 * q + r / 256);
        assert(v % 256 == r % 256);
    }
}

/// Big-endian encoding of each cipher suite, in order.
pub open spec fn suites_bytes(s: Seq<u16>) -> Seq<u8>
    decreases s.len(),
{
    if s.len() == 0 {
        Seq::empty()
    } else {
        suites_bytes(s.drop_last()) + be16_bytes(s.last() as nat)
    }
}

/// Serialized ClientHello body: version, random, one-byte session ID length
/// and session ID, two-byte cipher-suite length and suites, one-byte
/// compression length and methods, two-byte extensions length and extensions.
/// Each length field holds the length modulo its range.
pub open spec fn client_hello_bytes(
    version: u16,
    random: Seq<u8>,
    session_id: Seq<u8>,
    suites: Seq<u16>,
    compression: Seq<u8>,
    extensions: Seq<u8>,
) -> Seq<u8> {
    be16_bytes(version as nat) + random + seq![(session_id.len() % 256) as u8] + session_id
        + be16_bytes(2 * suites.len()) + suites_bytes(suites)
        + seq![(compression.len() % 256) as u8] + compression
        + be16_bytes(extensions.len()) + extensions
}

/// Text of the ClientHello summary.
pub open spec fn client_hello_summary(
    version: u16,
    random_len: nat,
    session_id_len: nat,
    suites_len: nat,
    compression_len: nat,
    extensions_len: nat,
) -> Seq<char> {
    "ClientHello:\n- Version: 0x"@ + hex_padded(version as nat, 4) + "\n- Random: "@ + decimal(random_len)
        + " bytes\n- Session ID: "@ + decimal(session_id_len) + " bytes\n- Cipher Suites: "@
        + decimal(suites_len) + " suites\n- Compression: "@ + decimal(compression_len)
        + " methods\n- Extensions: "@ + decimal(extensions_len) + " bytes"@
}

/// SNI extension data for `name`: two-byte list length (3 more than the name
/// length), name type 0 (host name), two-byte name length, the name's bytes.
pub open spec fn sni_bytes(name: Seq<u8>) -> Seq<u8> {
    be16_bytes(3 + name.len()) + seq![0u8] + be16_bytes(name.len()) + name
}

/// The SNI entry of an extension block: ID 0, the data length (modulo
/// 2^16) and the SNI data for `name`.
pub open spec fn sni_entry(name: Seq<u8>) -> Seq<u8> {
    be16_bytes(0) + be16_bytes(sni_bytes(name).len()) + sni_bytes(name)
}

/// The entries of the extensions, in order, and whether an SNI entry was
/// written: the first SNI extension (ID 0) becomes the SNI entry for `name`
/// and later ones are dropped; an extension that takes no bytes becomes its
/// ID with a zero length; any other is read into a zeroed buffer of its
/// length.
pub open spec fn extension_entries(exts: Seq<Box<dyn TLSExtension>>, name: Seq<u8>) -> (Seq<u8>, bool)
    decreases exts.len(),
{
    if exts.len() == 0 {
        (Seq::empty(), false)
    } else {
        let (prev, seen) = extension_entries(exts.drop_last(), name);
        let e = exts.last();
        if e.id() == 0 {
            if seen {
                (prev, true)
            } else {
                (prev + sni_entry(name), true)
            }
        } else if e.claimed_len() == 0 {
            (prev + be16_bytes(e.id() as nat) + be16_bytes(0), seen)
        } else {
            (prev + e.written() + zeros((e.claimed_len() - e.written().len()) as nat), seen)
        }
    }
}

/// The serialized extension block: the entries, then an SNI entry for a
/// non-empty `name` when no SNI extension was listed.
pub open spec fn extension_block(exts: Seq<Box<dyn TLSExtension>>, name: Seq<u8>) -> Seq<u8> {
    let (b, seen) = extension_entries(exts, name);
    if !seen && name.len() > 0 {
        b + sni_entry(name)
    } else {
        b
    }
}

/// Appends the SNI entry for `server_name`.
fn push_sni_entry(out: &mut Vec<u8>, server_name: &str)
    ensures
        final(out)@ == old(out)@ + sni_entry(server_name.spec_bytes()),
{
    let sni: Vec<u8> = ClientHelloMessage::build_sni_extension(server_name);
    push_be16(out, 0);
    push_be16(out, sni.len());
    push_all(out, sni.as_slice());
    assert(final(out)@ =~= old(out)@ + sni_entry(server_name.spec_bytes()));
}

/// A byte drawn from the thread's random generator (`rand::Rng::gen` on
/// `rand::thread_rng()`); the contract states nothing of its value.
#[verifier::external_body]
fn random_byte() -> u8 {
    rand::Rng::gen::<u8>(&mut rand::thread_rng())
}

/// The compression methods a ClientHello offers for a specification's
/// list: the list itself, or no compression (0) for an empty list.
pub open spec fn offered_compression(methods: Seq<u8>) -> Seq<u8> {
    if methods.len() == 0 {
        seq![0u8]
    } else {
        methods
    }
}

/// The ClientHello version for a specification's highest version: at least
/// TLS 1.2 (0x0303).
pub open spec fn hello_version(max: u16) -> u16 {
    if max > 0x0303 {
        max
    } else {
        0x0303
    }
}

/// ClientHello message
#[derive(Debug, Clone)]
pub struct ClientHelloMessage {
    /// client version
    pub client_version: u16,
    /// random bytes (32 bytes)
    pub random: Vec<u8>,
    /// session ID
    pub session_id: Vec<u8>,
    /// cipher suite list
    pub cipher_suites: Vec<u16>,
    /// compression methods
    pub compression_methods: Vec<u8>,
    /// serialized extensions
    pub extensions: Vec<u8>,
}

impl ClientHelloMessage {
    /// A ClientHello for `spec` to `server_name`: version at least TLS 1.2,
    /// random of 32 bytes (the low 32 bits of the Unix time in seconds, big
    /// endian, then 28 bytes from the thread's random generator), an empty
    /// session ID, the specification's cipher suites, its compression
    /// methods (no compression when it lists none) and its extensions
    /// serialized for `server_name`. The random bytes are left unstated.
    pub fn from_spec(spec: &ClientHelloSpec, server_name: &str) -> (r: Result<Self, String>)
        requires
            all_fit(spec.extensions@),
        ensures
            r matches Ok(m) && {
                &&& m.client_version == hello_version(spec.tls_vers_max)
                &&& m.random@.len() == 32
                &&& m.session_id@.len() == 0
                &&& m.cipher_suites@ == spec.cipher_suites@
                &&& m.compression_methods@ == offered_compression(spec.compression_methods@)
                &&& m.extensions@ == extension_block(spec.extensions@, server_name.spec_bytes())
            },
    {
        let client_version: u16 = if spec.tls_vers_max > 0x0303 {
            spec.tls_vers_max
        } else {
            0x0303
        };
        let secs: u128 = now_nanos() / NANOS_PER_SEC;
        let timestamp: u32 = (secs % 0x1_0000_0000) as u32;
        let mut random: Vec<u8> = Vec::new();
        random.push((timestamp / 0x100_0000) as u8);
        random.push(((timestamp / 0x1_0000) % 256) as u8);
        random.push(((timestamp / 256) % 256) as u8);
        random.push((timestamp % 256) as u8);
        let mut i: usize = 0;
        while i < 28
            invariant
                i <= 28,
                random@.len() == 4 + i,
            decreases 28 - i,
        {
            random.push(random_byte());
            i = i + 1;
        }
        let session_id: Vec<u8> = Vec::new();
        let cipher_suites: Vec<u16> = spec.cipher_suites.clone();
        let compression_methods: Vec<u8> = if spec.compression_methods.len() == 0 {
            let v: Vec<u8> = vec![0u8];
            assert(v@ =~= seq![0u8]);
            v
        } else {
            spec.compression_methods.clone()
        };
        let extensions: Vec<u8> = Self::serialize_extensions(spec.extensions.as_slice(), server_name);
        Ok(ClientHelloMessage { client_version, random, session_id, cipher_suites, compression_methods, extensions })
    }

    /// SNI extension data (without the extension ID and length fields).
    pub fn build_sni_extension(server_name: &str) -> (r: Vec<u8>)
        ensures
            r@ == sni_bytes(server_name.spec_bytes()),
    {
        let name: &[u8] = server_name.as_bytes();
        let mut data: Vec<u8> = Vec::new();
        let n: usize = name.len();
        proof { lemma_be16_mod((3 + n) as nat); }
        push_be16(&mut data, 3 + (n % 65536));
        assert((3 + (n % 65536)) % 65536 == (3 + n) % 65536) by (nonlinear_arith);
        proof { lemma_be16_mod((3 + (n % 65536)) as nat); }
        data.push(0);
        push_be16(&mut data, n);
        push_all(&mut data, name);
        assert(data@ =~= sni_bytes(server_name.spec_bytes()));
        data
    }

    /// Serializes extensions for a ClientHello to `server_name`, as
    /// [`extension_block`] states.
    pub fn serialize_extensions(extensions: &[Box<dyn TLSExtension>], server_name: &str) -> (r: Vec<u8>)
        requires
            forall|i: int| 0 <= i < extensions@.len() ==> #[trigger] extensions@[i].fits(),
        ensures
            r@ == extension_block(extensions@, server_name.spec_bytes()),
    {
        let ghost name = server_name.spec_bytes();
        let ghost exts = extensions@;
        let mut ext_bytes: Vec<u8> = Vec::new();
        let mut has_sni: bool = false;
        let mut i: usize = 0;
        while i < extensions.len()
            invariant
                exts == extensions@,
                name == server_name.spec_bytes(),
                i <= exts.len(),
                forall|k: int| 0 <= k < exts.len() ==> #[trigger] exts[k].fits(),
                (ext_bytes@, has_sni) == extension_entries(exts.subrange(0, i as int), name),
            decreases exts.len() - i,
        {
            let ghost prefix = exts.subrange(0, i + 1);
            assert(prefix.drop_last() =~= exts.subrange(0, i as int));
            assert(prefix.last() == exts[i as int]);
            let ext: &Box<dyn TLSExtension> = &extensions[i];
            assert(ext.fits());
            let ext_id: u16 = ext.extension_id();
            if ext_id == 0 {
                if !has_sni {
                    has_sni = true;
                    push_sni_entry(&mut ext_bytes, server_name);
                }
            } else {
                let ext_len: usize = ext.len();
                if ext_len == 0 {
                    push_be16(&mut ext_bytes, ext_id as usize);
                    push_be16(&mut ext_bytes, 0);
                } else {
                    let mut ext_data: Vec<u8> = Vec::new();
                    let mut j: usize = 0;
                    while j < ext_len
                        invariant
                            j <= ext_len,
                            ext_data@ == zeros(j as nat),
                        decreases ext_len - j,
                    {
                        ext_data.push(0u8);
                        j = j + 1;
                        assert(ext_data@ =~= zeros(j as nat));
                    }
                    let ghost before = ext_data@;
                    let res = ext.read(ext_data.as_mut_slice());
                    assert(res is Ok);
                    assert(before.skip(ext.written().len() as int) =~= zeros((ext.claimed_len() - ext.written().len()) as nat));
                    push_all(&mut ext_bytes, ext_data.as_slice());
                }
            }
            i = i + 1;
        }
        assert(exts.subrange(0, i as int) =~= exts);
        if !has_sni && server_name.as_bytes().len() > 0 {
            push_sni_entry(&mut ext_bytes, server_name);
        }
        ext_bytes
    }

    /// Serializes the message body.
    pub fn to_bytes(&self) -> (r: Vec<u8>)
        ensures
            r@ == client_hello_bytes(
                self.client_version,
                self.random@,
                self.session_id@,
                self.cipher_suites@,
                self.compression_methods@,
                self.extensions@,
            ),
    {
        let mut bytes: Vec<u8> = Vec::new();
        push_be16(&mut bytes, self.client_version as usize);
        push_all(&mut bytes, self.random.as_slice());
        bytes.push((self.session_id.len() % 256) as u8);
        push_all(&mut bytes, self.session_id.as_slice());
        let count: usize = self.cipher_suites.len();
        proof {
            lemma_be16_mod(2 * count as nat);
            lemma_be16_mod(2 * (count % 32768) as nat);
        }
        assert((2 * (count % 32768)) % 65536 == (2 * count) % 65536) by (nonlinear_arith);
        push_be16(&mut bytes, 2 * (count % 32768));
        let ghost before = bytes@;
        let mut i: usize = 0;
        while i < count
            invariant
                count == self.cipher_suites@.len(),
                i <= count,
                bytes@ == before + suites_bytes(self.cipher_suites@.subrange(0, i as int)),
            decreases count - i,
        {
            let cs: u16 = self.cipher_suites[i];
            push_be16(&mut bytes, cs as usize);
            assert(self.cipher_suites@.subrange(0, i + 1).drop_last() =~= self.cipher_suites@.subrange(0, i as int));
            i = i + 1;
            assert(bytes@ =~= before + suites_bytes(self.cipher_suites@.subrange(0, i as int)));
        }
        assert(self.cipher_suites@.subrange(0, count as int) =~= self.cipher_suites@);
        bytes.push((self.compression_methods.len() % 256) as u8);
        push_all(&mut bytes, self.compression_methods.as_slice());
        push_be16(&mut bytes, self.extensions.len());
        push_all(&mut bytes, self.extensions.as_slice());
        assert(bytes@ =~= client_hello_bytes(
            self.client_version,
            self.random@,
            self.session_id@,
            self.cipher_suites@,
            self.compression_methods@,
            self.extensions@,
        ));
        bytes
    }

    /// A multi-line summary of the message's fields.
    pub fn debug_info(&self) -> (r: String)
        ensures
            r@ == client_hello_summary(
                self.client_version,
                self.random@.len(),
                self.session_id@.len(),
                self.cipher_suites@.len(),
                self.compression_methods@.len(),
                self.extensions@.len(),
            ),
    {
        let mut s: String = String::from_str("ClientHello:\n- Version: 0x");
        push_hex_padded(&mut s, self.client_version as u64, 4);
        s.append("\n- Random: ");
        push_decimal(&mut s, self.random.len() as u64);
        s.append(" bytes\n- Session ID: ");
        push_decimal(&mut s, self.session_id.len() as u64);
        s.append(" bytes\n- Cipher Suites: ");
        push_decimal(&mut s, self.cipher_suites.len() as u64);
        s.append(" suites\n- Compression: ");
        push_decimal(&mut s, self.compression_methods.len() as u64);
        s.append(" methods\n- Extensions: ");
        push_decimal(&mut s, self.extensions.len() as u64);
        s.append(" bytes");
        s
    }
}

/// Serialized TLS record that carries a ClientHello handshake message whose
/// body is `body`, under record version 0x0301.
pub open spec fn client_hello_record(body: Seq<u8>) -> Seq<u8> {
    record_bytes(TLSRecordType::Handshake, 0x0301, handshake_bytes(TLSHandshakeType::ClientHello, body))
}

/// Builds TLS ClientHello records.
pub struct TLSHandshakeBuilder;

impl TLSHandshakeBuilder {
    /// The complete TLS record of a ClientHello for `spec` to `server_name`
    /// (see [`ClientHelloMessage::from_spec`]): the message body in a
    /// handshake message in a handshake record of version 0x0301. Only the
    /// 32 random bytes are left unstated.
    pub fn build_client_hello(spec: &ClientHelloSpec, server_name: &str) -> (r: Result<Vec<u8>, String>)
        requires
            all_fit(spec.extensions@),
        ensures
            r matches Ok(b) && exists|random: Seq<u8>| {
                &&& random.len() == 32
                &&& b@ == client_hello_record(client_hello_bytes(
                    hello_version(spec.tls_vers_max),
                    random,
                    Seq::empty(),
                    spec.cipher_suites@,
                    offered_compression(spec.compression_methods@),
                    extension_block(spec.extensions@, server_name.spec_bytes()),
                ))
            },
    {
        let message: ClientHelloMessage = match ClientHelloMessage::from_spec(spec, server_name) {
            Ok(m) => m,
            Err(e) => {
                return Err(e);
            },
        };
        let bytes: Vec<u8> = Self::build_record(&message);
        assert(message.session_id@ =~= Seq::<u8>::empty());
        Ok(bytes)
    }

    /// The complete TLS record for a ClientHello message: the message body
    /// wrapped in a handshake message and a handshake record of version
    /// 0x0301, ready to be sent to a server.
    pub fn build_record(message: &ClientHelloMessage) -> (r: Vec<u8>)
        ensures
            r@ == client_hello_record(client_hello_bytes(
                message.client_version,
                message.random@,
                message.session_id@,
                message.cipher_suites@,
                message.compression_methods@,
                message.extensions@,
            )),
    {
        let body: Vec<u8> = message.to_bytes();
        let handshake: TLSHandshake = TLSHandshake::client_hello(body);
        let handshake_bytes: Vec<u8> = handshake.to_bytes();
        let record: TLSRecord = TLSRecord::handshake(0x0301, handshake_bytes);
        record.to_bytes()
    }
}

} // verus!

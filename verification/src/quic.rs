//! QUIC (RFC 9000) long-header Initial packet parsing and fingerprinting.
use vstd::prelude::*;
use crate::text::{decimal, hex_padded, push_decimal, push_hex_padded};

verus! {

broadcast use vstd::string::group_string_axioms;

/// QUIC version.
#[derive(Debug, Clone, Copy, PartialEq, Eq, Structural, Hash)]
pub enum QuicVersion {
    V1,
    V2,
    Draft29,
    Draft30,
    Draft31,
    Draft32,
    Unknown(u32),
}

/// The version that a 32-bit version field names.
pub open spec fn version_of(v: u32) -> QuicVersion {
    if v == 0x00000001 {
        QuicVersion::V1
    } else if v == 0x6b3343cf {
        QuicVersion::V2
    } else if v == 0xff00001d {
        QuicVersion::Draft29
    } else if v == 0xff00001e {
        QuicVersion::Draft30
    } else if v == 0xff00001f {
        QuicVersion::Draft31
    } else if v == 0xff000020 {
        QuicVersion::Draft32
    } else {
        QuicVersion::Unknown(v)
    }
}

/// The 32-bit code of a version.
pub open spec fn version_code(v: QuicVersion) -> u32 {
    match v {
        QuicVersion::V1 => 0x00000001,
        QuicVersion::V2 => 0x6b3343cf,
        QuicVersion::Draft29 => 0xff00001d,
        QuicVersion::Draft30 => 0xff00001e,
        QuicVersion::Draft31 => 0xff00001f,
        QuicVersion::Draft32 => 0xff000020,
        QuicVersion::Unknown(c) => c,
    }
}

/// Display text of a version.
pub open spec fn version_text(v: QuicVersion) -> Seq<char> {
    match v {
        QuicVersion::V1 => "QUIC v1 (RFC 9000)"@,
        QuicVersion::V2 => "QUIC v2 (RFC 9369)"@,
        QuicVersion::Draft29 => "QUIC Draft-29"@,
        QuicVersion::Draft30 => "QUIC Draft-30"@,
        QuicVersion::Draft31 => "QUIC Draft-31"@,
        QuicVersion::Draft32 => "QUIC Draft-32"@,
        QuicVersion::Unknown(c) => "QUIC Unknown (0x"@ + hex_padded(c as nat, 8) + ")"@,
    }
}

/// Short name of a version, as used in fingerprints.
pub open spec fn version_short(v: QuicVersion) -> Seq<char> {
    match v {
        QuicVersion::V1 => "v1"@,
        QuicVersion::V2 => "v2"@,
        QuicVersion::Draft29 => "d29"@,
        QuicVersion::Draft30 => "d30"@,
        QuicVersion::Draft31 => "d31"@,
        QuicVersion::Draft32 => "d32"@,
        QuicVersion::Unknown(_) => "unknown"@,
    }
}

impl QuicVersion {
    /// The version that a 32-bit version field names.
    pub fn from_u32(v: u32) -> (r: Self)
        ensures
            r == version_of(v),
    {
        match v {
            0x00000001 => QuicVersion::V1,
            0x6b3343cf => QuicVersion::V2,
            0xff00001d => QuicVersion::Draft29,
            0xff00001e => QuicVersion::Draft30,
            0xff00001f => QuicVersion::Draft31,
            0xff000020 => QuicVersion::Draft32,
            _ => QuicVersion::Unknown(v),
        }
    }

    /// The 32-bit code of the version.
    pub fn to_u32(&self) -> (r: u32)
        ensures
            r == version_code(*self),
    {
        match self {
            QuicVersion::V1 => 0x00000001,
            QuicVersion::V2 => 0x6b3343cf,
            QuicVersion::Draft29 => 0xff00001d,
            QuicVersion::Draft30 => 0xff00001e,
            QuicVersion::Draft31 => 0xff00001f,
            QuicVersion::Draft32 => 0xff000020,
            QuicVersion::Unknown(v) => *v,
        }
    }

    /// Display text, such as `QUIC v1 (RFC 9000)`.
    pub fn to_string(&self) -> (r: String)
        ensures
            r@ == version_text(*self),
    {
        match self {
            QuicVersion::V1 => String::from_str("QUIC v1 (RFC 9000)"),
            QuicVersion::V2 => String::from_str("QUIC v2 (RFC 9369)"),
            QuicVersion::Draft29 => String::from_str("QUIC Draft-29"),
            QuicVersion::Draft30 => String::from_str("QUIC Draft-30"),
            QuicVersion::Draft31 => String::from_str("QUIC Draft-31"),
            QuicVersion::Draft32 => String::from_str("QUIC Draft-32"),
            QuicVersion::Unknown(v) => {
                let mut s: String = String::from_str("QUIC Unknown (0x");
                push_hex_padded(&mut s, *v as u64, 8);
                s.append(")");
                s
            },
        }
    }
}

/// Decoding a code and encoding the result gives the code back.
pub proof fn lemma_version_code_roundtrip(v: u32)
    ensures
        version_code(version_of(v)) == v,
{
}

/// Encoding a version and decoding the code gives the version back, unless
/// it is an `Unknown` that carries the code of a named version.
pub proof fn lemma_version_roundtrip(v: QuicVersion)
    requires
        v matches QuicVersion::Unknown(c) ==> version_of(c) == QuicVersion::Unknown(c),
    ensures
        version_of(version_code(v)) == v,
{
}

/// QUIC long-header packet type.
#[derive(Debug, Clone, Copy, PartialEq, Eq, Structural, Hash)]
pub enum QuicPacketType {
    Initial,
    ZeroRTT,
    Handshake,
    Retry,
    Unknown(u8),
}

/// The packet type named by the two low bits of `bits`.
pub open spec fn packet_type_of(bits: u8) -> QuicPacketType {
    if bits % 4 == 0 {
        QuicPacketType::Initial
    } else if bits % 4 == 1 {
        QuicPacketType::ZeroRTT
    } else if bits % 4 == 2 {
        QuicPacketType::Handshake
    } else {
        QuicPacketType::Retry
    }
}

/// Display text of a packet type.
pub open spec fn packet_type_text(t: QuicPacketType) -> Seq<char> {
    match t {
        QuicPacketType::Initial => "Initial"@,
        QuicPacketType::ZeroRTT => "0-RTT"@,
        QuicPacketType::Handshake => "Handshake"@,
        QuicPacketType::Retry => "Retry"@,
        QuicPacketType::Unknown(b) => "Unknown (0x"@ + hex_padded(b as nat, 2) + ")"@,
    }
}

impl QuicPacketType {
    /// The packet type named by the two low bits of `bits`.
    pub fn from_type_bits(bits: u8) -> (r: Self)
        ensures
            r == packet_type_of(bits),
    {
        let low: u8 = bits % 4;
        if low == 0 {
            QuicPacketType::Initial
        } else if low == 1 {
            QuicPacketType::ZeroRTT
        } else if low == 2 {
            QuicPacketType::Handshake
        } else {
            QuicPacketType::Retry
        }
    }

    /// Display text, such as `0-RTT`.
    pub fn to_string(&self) -> (r: String)
        ensures
            r@ == packet_type_text(*self),
    {
        match self {
            QuicPacketType::Initial => String::from_str("Initial"),
            QuicPacketType::ZeroRTT => String::from_str("0-RTT"),
            QuicPacketType::Handshake => String::from_str("Handshake"),
            QuicPacketType::Retry => String::from_str("Retry"),
            QuicPacketType::Unknown(b) => {
                let mut s: String = String::from_str("Unknown (0x");
                push_hex_padded(&mut s, *b as u64, 2);
                s.append(")");
                s
            },
        }
    }
}

/// Decoding of a QUIC variable-length integer (RFC 9000, 16) at the front of
/// `s`: the two high bits of the first byte give its length (1, 2, 4 or 8
/// bytes), the rest is the value, most significant first.
pub open spec fn varint(s: Seq<u8>) -> Option<(nat, nat)> {
    if s.len() == 0 {
        None
    } else {
        let prefix = s[0] / 64;
        let top: nat = (s[0] % 64) as nat;
        if prefix == 0 {
            Some((top, 1))
        } else if prefix == 1 {
            if s.len() < 2 {
                None
            } else {
                Some(((top * 0x100 + s[1]) as nat, 2))
            }
        } else if prefix == 2 {
            if s.len() < 4 {
                None
            } else {
                Some(((top * 0x1000000 + s[1] * 0x10000 + s[2] * 0x100 + s[3]) as nat, 4))
            }
        } else {
            if s.len() < 8 {
                None
            } else {
                Some(((top * 0x100000000000000 + s[1] * 0x1000000000000 + s[2] * 0x10000000000
                    + s[3] * 0x100000000 + s[4] * 0x1000000 + s[5] * 0x10000 + s[6] * 0x100 + s[7]) as nat, 8))
            }
        }
    }
}

/// Error text of a variable-length integer decoding that fails.
pub open spec fn varint_error(s: Seq<u8>) -> Seq<char> {
    if s.len() == 0 {
        "Empty data for variable length integer"@
    } else if s[0] / 64 == 1 {
        "Insufficient data for 2-byte varint"@
    } else if s[0] / 64 == 2 {
        "Insufficient data for 4-byte varint"@
    } else {
        "Insufficient data for 8-byte varint"@
    }
}

/// Parses a variable-length integer at the front of `data`: its value and the
/// number of bytes it takes.
pub fn parse_variable_length_integer(data: &[u8]) -> (r: Result<(u64, usize), String>)
    ensures
        r is Ok <==> varint(data@) is Some,
        r matches Ok((v, n)) ==> varint(data@) == Some((v as nat, n as nat)),
        r matches Err(e) ==> e@ == varint_error(data@),
{
    if data.len() == 0 {
        return Err(String::from_str("Empty data for variable length integer"));
    }
    let first: u8 = data[0];
    let prefix: u8 = first / 64;
    let top: u64 = (first % 64) as u64;
    if prefix == 0 {
        Ok((top, 1))
    } else if prefix == 1 {
        if data.len() < 2 {
            return Err(String::from_str("Insufficient data for 2-byte varint"));
        }
        Ok((top * 0x100 + data[1] as u64, 2))
    } else if prefix == 2 {
        if data.len() < 4 {
            return Err(String::from_str("Insufficient data for 4-byte varint"));
        }
        Ok((top * 0x1000000 + (data[1] as u64) * 0x10000 + (data[2] as u64) * 0x100 + data[3] as u64, 4))
    } else {
        if data.len() < 8 {
            return Err(String::from_str("Insufficient data for 8-byte varint"));
        }
        let v: u64 = top * 0x100000000000000 + (data[1] as u64) * 0x1000000000000
            + (data[2] as u64) * 0x10000000000 + (data[3] as u64) * 0x100000000
            + (data[4] as u64) * 0x1000000 + (data[5] as u64) * 0x10000 + (data[6] as u64) * 0x100
            + data[7] as u64;
        Ok((v, 8))
    }
}

/// The fields of a parsed long header: version code, first byte, DCID, SCID,
/// token and the value of the Length field.
pub type QuicHeaderFields = (u32, u8, Seq<u8>, Seq<u8>, Seq<u8>, nat);

/// Decoding of a QUIC long-header packet: the first byte must have its form
/// bit and fixed bit set; then come the 32-bit version, DCID length and DCID,
/// SCID length and SCID, token length (variable-length integer) and token,
/// and the Length field (variable-length integer). Each failure has its
/// message.
pub open spec fn quic_header(s: Seq<u8>) -> Result<QuicHeaderFields, Seq<char>> {
    if s.len() == 0 {
        Err("Empty packet data"@)
    } else if s[0] / 128 != 1 {
        Err("Not a long header form packet"@)
    } else if (s[0] / 64) % 2 != 1 {
        Err("Fixed bit is not 1"@)
    } else if s.len() < 5 {
        Err("Insufficient data for version field"@)
    } else if s.len() <= 5 {
        Err("Insufficient data for DCID length"@)
    } else {
        let version = (s[1] * 0x1000000 + s[2] * 0x10000 + s[3] * 0x100 + s[4]) as u32;
        let dcid_end = 6 + s[5];
        if dcid_end > s.len() {
            Err("Insufficient data for DCID"@)
        } else if dcid_end >= s.len() {
            Err("Insufficient data for SCID length"@)
        } else {
            let scid_end = dcid_end + 1 + s[dcid_end];
            if scid_end > s.len() {
                Err("Insufficient data for SCID"@)
            } else {
                let rest = s.subrange(scid_end, s.len() as int);
                match varint(rest) {
                    None => Err(varint_error(rest)),
                    Some((token_len, n)) => {
                        let token_start = scid_end + n;
                        let token_end = token_start + token_len;
                        if token_end > s.len() {
                            Err("Insufficient data for token"@)
                        } else if token_end >= s.len() {
                            Err("Insufficient data for length field"@)
                        } else {
                            let tail = s.subrange(token_end, s.len() as int);
                            match varint(tail) {
                                None => Err(varint_error(tail)),
                                Some((length, _)) => Ok(
                                    (
                                        version,
                                        s[0],
                                        s.subrange(6, dcid_end),
                                        s.subrange(dcid_end + 1, scid_end),
                                        s.subrange(token_start, token_end),
                                        length,
                                    ),
                                ),
                            }
                        }
                    },
                }
            }
        }
    }
}

/// Packet-number length that the original reads from bits 3..5 of the first
/// byte: 1, 2, 4 or 8 bytes.
pub open spec fn packet_number_length_of(first_byte: u8) -> u8 {
    let r = (first_byte / 8) % 4;
    if r == 0 {
        1
    } else if r == 1 {
        2
    } else if r == 2 {
        4
    } else {
        8
    }
}

/// Text of a boolean, as `{}` prints it.
pub open spec fn bool_text(b: bool) -> Seq<char> {
    if b {
        "true"@
    } else {
        "false"@
    }
}

/// Fingerprint text `quic_<version>_<dcid_len>_<scid_len>_<pkt_num_len>_<reserved>`.
pub open spec fn quic_fingerprint_text(
    version: QuicVersion,
    dcid_len: nat,
    scid_len: nat,
    pn_len: u8,
    reserved: u8,
) -> Seq<char> {
    "quic_"@ + version_short(version) + "_"@ + decimal(dcid_len) + "_"@ + decimal(scid_len) + "_"@
        + decimal(pn_len as nat) + "_"@ + decimal(reserved as nat)
}

/// QUIC Initial packet header.
#[derive(Debug, Clone)]
pub struct QuicInitialPacket {
    /// QUIC version
    pub version: QuicVersion,
    /// Packet type (Initial, 0-RTT, Handshake, Retry)
    pub packet_type: QuicPacketType,
    /// Destination Connection ID (DCID)
    pub dcid: Vec<u8>,
    /// Source Connection ID (SCID)
    pub scid: Vec<u8>,
    /// Token (used by Retry and Address Validation)
    pub token: Vec<u8>,
    /// Spin bit value
    pub spin_bit: bool,
    /// Reserved bits (should be 0x00)
    pub reserved_bits: u8,
    /// Packet Number length (1, 2, 4, or 8 bytes)
    pub packet_number_length: u8,
    /// First byte of packet (raw)
    pub first_byte: u8,
    /// Total packet length (if available)
    pub packet_length: Option<usize>,
}

/// Parsed packet text for `analyze`.
pub open spec fn quic_analysis_text(p: QuicInitialPacket) -> Seq<char> {
    "QUIC Initial Packet Analysis:\n- Version: "@ + version_text(p.version) + "\n- Packet Type: "@
        + packet_type_text(p.packet_type) + "\n- DCID Length: "@ + decimal(p.dcid@.len())
        + " bytes\n- SCID Length: "@ + decimal(p.scid@.len()) + " bytes\n- Token Length: "@
        + decimal(p.token@.len()) + " bytes\n- Spin Bit: "@ + bool_text(p.spin_bit)
        + "\n- Reserved Bits: 0x"@ + hex_padded(p.reserved_bits as nat, 2)
        + "\n- Packet Number Length: "@ + decimal(p.packet_number_length as nat)
        + " bytes\n- First Byte: 0x"@ + hex_padded(p.first_byte as nat, 2) + "\n- Fingerprint: "@
        + quic_fingerprint_text(p.version, p.dcid@.len(), p.scid@.len(), p.packet_number_length, p.reserved_bits)
}

/// Whether the packet's fields are the decoded header fields `h`; the
/// Length value is kept as a `usize`.
pub open spec fn packet_holds(p: QuicInitialPacket, h: QuicHeaderFields) -> bool {
    &&& version_code(p.version) == h.0
    &&& p.first_byte == h.1
    &&& p.dcid@ == h.2
    &&& p.scid@ == h.3
    &&& p.token@ == h.4
    &&& p.packet_length == Some(h.5 as usize)
}

impl QuicInitialPacket {
    /// Parses a QUIC long-header packet from raw bytes.
    pub fn parse(data: &[u8]) -> (r: Result<Self, String>)
        ensures
            r is Ok <==> quic_header(data@) is Ok,
            r matches Err(e) ==> quic_header(data@) == Err::<QuicHeaderFields, Seq<char>>(e@),
            r matches Ok(p) ==> {
                &&& quic_header(data@) matches Ok(h) && packet_holds(p, h)
                &&& p.version == version_of(version_code(p.version))
                &&& p.packet_type == packet_type_of(p.first_byte)
                &&& p.spin_bit == ((p.first_byte / 32) % 2 == 1)
                &&& p.reserved_bits == (p.first_byte / 8) % 4
                &&& p.packet_number_length == packet_number_length_of(p.first_byte)
                &&& p.packet_length is Some
            },
    {
        if data.len() == 0 {
            return Err(String::from_str("Empty packet data"));
        }
        let first_byte: u8 = data[0];
        if first_byte / 128 != 1 {
            return Err(String::from_str("Not a long header form packet"));
        }
        if (first_byte / 64) % 2 != 1 {
            return Err(String::from_str("Fixed bit is not 1"));
        }
        let spin_bit: bool = (first_byte / 32) % 2 == 1;
        let reserved_bits: u8 = (first_byte / 8) % 4;
        let packet_type = QuicPacketType::from_type_bits(first_byte);
        if data.len() < 5 {
            return Err(String::from_str("Insufficient data for version field"));
        }
        let version_u32: u32 = (data[1] as u32) * 0x1000000 + (data[2] as u32) * 0x10000 + (data[3] as u32) * 0x100
            + data[4] as u32;
        let version = QuicVersion::from_u32(version_u32);
        let mut pos: usize = 5;
        if pos >= data.len() {
            return Err(String::from_str("Insufficient data for DCID length"));
        }
        let dcid_len: usize = data[pos] as usize;
        pos = pos + 1;
        if dcid_len > data.len() - pos {
            return Err(String::from_str("Insufficient data for DCID"));
        }
        let dcid: Vec<u8> = vstd::slice::slice_to_vec(&data[pos..pos + dcid_len]);
        pos = pos + dcid_len;
        if pos >= data.len() {
            return Err(String::from_str("Insufficient data for SCID length"));
        }
        let scid_len: usize = data[pos] as usize;
        pos = pos + 1;
        if scid_len > data.len() - pos {
            return Err(String::from_str("Insufficient data for SCID"));
        }
        let scid: Vec<u8> = vstd::slice::slice_to_vec(&data[pos..pos + scid_len]);
        pos = pos + scid_len;
        let (token_len, bytes_read) = match parse_variable_length_integer(&data[pos..data.len()]) {
            Ok(x) => x,
            Err(e) => {
                return Err(e);
            },
        };
        pos = pos + bytes_read;
        if token_len > (data.len() - pos) as u64 {
            return Err(String::from_str("Insufficient data for token"));
        }
        let token_len: usize = token_len as usize;
        let token: Vec<u8> = vstd::slice::slice_to_vec(&data[pos..pos + token_len]);
        pos = pos + token_len;
        if pos >= data.len() {
            return Err(String::from_str("Insufficient data for length field"));
        }
        let (length, _) = match parse_variable_length_integer(&data[pos..data.len()]) {
            Ok(x) => x,
            Err(e) => {
                return Err(e);
            },
        };
        let packet_length: usize = length as usize;
        let packet_number_length: u8 = match reserved_bits {
            0 => 1,
            1 => 2,
            2 => 4,
            _ => 8,
        };
        assert(data@.subrange(6, 6 + dcid_len as int) == dcid@);
        Ok(QuicInitialPacket {
            version,
            packet_type,
            dcid,
            scid,
            token,
            spin_bit,
            reserved_bits,
            packet_number_length,
            first_byte,
            packet_length: Some(packet_length),
        })
    }

    /// Fingerprint text `quic_<version>_<dcid_len>_<scid_len>_<pkt_num_len>_<reserved>`.
    pub fn fingerprint(&self) -> (r: String)
        ensures
            r@ == quic_fingerprint_text(
                self.version,
                self.dcid@.len(),
                self.scid@.len(),
                self.packet_number_length,
                self.reserved_bits,
            ),
    {
        let mut s: String = String::from_str("quic_");
        match self.version {
            QuicVersion::V1 => s.append("v1"),
            QuicVersion::V2 => s.append("v2"),
            QuicVersion::Draft29 => s.append("d29"),
            QuicVersion::Draft30 => s.append("d30"),
            QuicVersion::Draft31 => s.append("d31"),
            QuicVersion::Draft32 => s.append("d32"),
            QuicVersion::Unknown(_) => s.append("unknown"),
        }
        s.append("_");
        push_decimal(&mut s, self.dcid.len() as u64);
        s.append("_");
        push_decimal(&mut s, self.scid.len() as u64);
        s.append("_");
        push_decimal(&mut s, self.packet_number_length as u64);
        s.append("_");
        push_decimal(&mut s, self.reserved_bits as u64);
        s
    }

    /// Multi-line analysis of the packet's fields.
    pub fn analyze(&self) -> (r: String)
        ensures
            r@ == quic_analysis_text(*self),
    {
        let mut s: String = String::from_str("QUIC Initial Packet Analysis:\n- Version: ");
        let v: String = self.version.to_string();
        s.append(v.as_str());
        s.append("\n- Packet Type: ");
        let t: String = self.packet_type.to_string();
        s.append(t.as_str());
        s.append("\n- DCID Length: ");
        push_decimal(&mut s, self.dcid.len() as u64);
        s.append(" bytes\n- SCID Length: ");
        push_decimal(&mut s, self.scid.len() as u64);
        s.append(" bytes\n- Token Length: ");
        push_decimal(&mut s, self.token.len() as u64);
        s.append(" bytes\n- Spin Bit: ");
        if self.spin_bit {
            s.append("true");
        } else {
            s.append("false");
        }
        s.append("\n- Reserved Bits: 0x");
        push_hex_padded(&mut s, self.reserved_bits as u64, 2);
        s.append("\n- Packet Number Length: ");
        push_decimal(&mut s, self.packet_number_length as u64);
        s.append(" bytes\n- First Byte: 0x");
        push_hex_padded(&mut s, self.first_byte as u64, 2);
        s.append("\n- Fingerprint: ");
        let f: String = self.fingerprint();
        s.append(f.as_str());
        s
    }
}

} // verus!

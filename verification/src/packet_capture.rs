//! Packet capture analysis: PCAP headers, Ethernet, IPv4/IPv6, TCP (with
//! options) and UDP decoding, and TCP handshake flow tracking.
use vstd::prelude::*;
use vstd::slice::slice_to_vec;
use crate::text::{decimal, push_decimal};

verus! {

broadcast use vstd::string::group_string_axioms;

/// Big-endian 16-bit value stored at `s[i..i + 2]`.
pub open spec fn be16(s: Seq<u8>, i: int) -> u16 {
    (s[i] * 256 + s[i + 1]) as u16
}

/// Big-endian 32-bit value stored at `s[i..i + 4]`.
pub open spec fn be32(s: Seq<u8>, i: int) -> u32 {
    (s[i] * 16777216 + s[i + 1] * 65536 + s[i + 2] * 256 + s[i + 3]) as u32
}

/// Reads a big-endian `u16` at `i`.
pub fn read_be16(d: &[u8], i: usize) -> (r: u16)
    requires
        i + 2 <= d@.len(),
    ensures
        r == be16(d@, i as int),
{
    (d[i] as u16) * 256 + (d[i + 1] as u16)
}

/// Reads a big-endian `u32` at `i`.
pub fn read_be32(d: &[u8], i: usize) -> (r: u32)
    requires
        i + 4 <= d@.len(),
    ensures
        r == be32(d@, i as int),
{
    (d[i] as u32) * 16777216 + (d[i + 1] as u32) * 65536 + (d[i + 2] as u32) * 256 + (d[i + 3] as u32)
}

/// PCAP global header (PCAP file format).
#[derive(Debug, Clone, Copy)]
pub struct PcapGlobalHeader {
    /// Magic number (0xa1b2c3d4 for normal byte order)
    pub magic_number: u32,
    /// Major version number
    pub version_major: u16,
    /// Minor version number
    pub version_minor: u16,
    /// Timezone offset (usually 0)
    pub timezone_offset: i32,
    /// Timestamp accuracy (usually 0)
    pub timestamp_accuracy: u32,
    /// Snapshot length (maximum packet size)
    pub snapshot_length: u32,
    /// Data link type (1 for Ethernet)
    pub data_link_type: u32,
}

impl PcapGlobalHeader {
    /// PCAP header with the standard settings (microsecond magic, v2.4,
    /// 65535-byte snapshots, Ethernet link type).
    pub fn standard() -> (r: Self)
        ensures
            r.magic_number == 0xa1b2c3d4,
            r.version_major == 2,
            r.version_minor == 4,
            r.timezone_offset == 0,
            r.timestamp_accuracy == 0,
            r.snapshot_length == 65535,
            r.data_link_type == 1,
    {
        PcapGlobalHeader {
            magic_number: 0xa1b2c3d4,
            version_major: 2,
            version_minor: 4,
            timezone_offset: 0,
            timestamp_accuracy: 0,
            snapshot_length: 65535,
            data_link_type: 1,
        }
    }

    /// Whether the magic number is one of the two PCAP byte orders.
    pub fn is_valid(&self) -> (r: bool)
        ensures
            r == (self.magic_number == 0xa1b2c3d4 || self.magic_number == 0xd4c3b2a1),
    {
        self.magic_number == 0xa1b2c3d4 || self.magic_number == 0xd4c3b2a1
    }

    /// Whether the file was written in the opposite byte order.
    pub fn needs_byte_swap(&self) -> (r: bool)
        ensures
            r == (self.magic_number == 0xd4c3b2a1),
    {
        self.magic_number == 0xd4c3b2a1
    }
}

/// PCAP packet header
#[derive(Debug, Clone, Copy)]
pub struct PcapPacketHeader {
    /// Timestamp seconds
    pub timestamp_sec: u32,
    /// Timestamp microseconds
    pub timestamp_usec: u32,
    /// Packet length (captured)
    pub incl_len: u32,
    /// Actual packet length
    pub orig_len: u32,
}

/// A captured packet as a PCAP stream hands it out: time stamp, original
/// length and the captured bytes.
#[derive(Debug, Clone, Copy)]
pub struct PcapPacketView<'a> {
    pub timestamp_sec: u32,
    pub timestamp_usec: u32,
    pub original_len: u32,
    pub data: &'a [u8],
}

/// Ethernet frame header
#[derive(Debug, Clone, Copy)]
pub struct EthernetHeader {
    /// Destination MAC address
    pub dst_mac: [u8; 6],
    /// Source MAC address
    pub src_mac: [u8; 6],
    /// EtherType (0x0800 for IPv4, 0x86dd for IPv6)
    pub ether_type: u16,
}

/// IPv4 header
#[derive(Debug, Clone, Copy)]
pub struct Ipv4Header {
    /// Version (upper 4 bits) and IHL (lower 4 bits)
    pub version_ihl: u8,
    /// DSCP and ECN
    pub dscp_ecn: u8,
    /// Total length
    pub total_length: u16,
    /// Identification
    pub identification: u16,
    /// Flags and fragment offset
    pub flags_fragment_offset: u16,
    /// Time To Live
    pub ttl: u8,
    /// Protocol
    pub protocol: u8,
    /// Header checksum
    pub checksum: u16,
    /// Source IP address
    pub src_ip: [u8; 4],
    /// Destination IP address
    pub dst_ip: [u8; 4],
}

impl Ipv4Header {
    /// IP version (upper 4 bits of the first byte).
    pub fn version(&self) -> (r: u8)
        ensures
            r == self.version_ihl / 16,
    {
        self.version_ihl / 16
    }

    /// Header length in 32-bit words (lower 4 bits of the first byte).
    pub fn ihl(&self) -> (r: u8)
        ensures
            r == self.version_ihl % 16,
    {
        self.version_ihl % 16
    }

    /// Don't Fragment flag.
    pub fn df_flag(&self) -> (r: bool)
        ensures
            r == (self.flags_fragment_offset & 0x4000 != 0),
    {
        (self.flags_fragment_offset & 0x4000) != 0
    }

    /// More Fragments flag.
    pub fn mf_flag(&self) -> (r: bool)
        ensures
            r == (self.flags_fragment_offset & 0x2000 != 0),
    {
        (self.flags_fragment_offset & 0x2000) != 0
    }

    /// Fragment offset (lower 13 bits).
    pub fn fragment_offset(&self) -> (r: u16)
        ensures
            r == self.flags_fragment_offset & 0x1fff,
    {
        self.flags_fragment_offset & 0x1fff
    }
}

/// IPv6 header
#[derive(Debug, Clone, Copy)]
pub struct Ipv6Header {
    /// Version and traffic class high bits
    pub version_traffic_class_high: u8,
    /// Traffic class low bits and flow label high bits
    pub traffic_class_flow_label_high: u8,
    /// Flow label
    pub flow_label: u16,
    /// Payload length
    pub payload_length: u16,
    /// Next header
    pub next_header: u8,
    /// Hop limit
    pub hop_limit: u8,
    /// Source IP address (128 bits)
    pub src_ip: [u8; 16],
    /// Destination IP address (128 bits)
    pub dst_ip: [u8; 16],
}

/// TCP header
#[derive(Debug, Clone, Copy)]
pub struct TcpHeader {
    /// Source port
    pub src_port: u16,
    /// Destination port
    pub dst_port: u16,
    /// Sequence number
    pub sequence_number: u32,
    /// Acknowledgment number
    pub acknowledgment_number: u32,
    /// Data offset and flags
    pub data_offset_flags: u16,
    /// Window size
    pub window_size: u16,
    /// Checksum
    pub checksum: u16,
    /// Urgent pointer
    pub urgent_pointer: u16,
}

impl TcpHeader {
    /// Header length in 32-bit words (upper 4 bits).
    pub fn data_offset(&self) -> (r: u8)
        ensures
            r == self.data_offset_flags / 4096,
    {
        (self.data_offset_flags / 4096) as u8
    }

    /// SYN flag.
    pub fn syn(&self) -> (r: bool)
        ensures
            r == self.spec_syn(),
    {
        (self.data_offset_flags & 0x0002) != 0
    }

    /// ACK flag.
    pub fn ack(&self) -> (r: bool)
        ensures
            r == self.spec_ack(),
    {
        (self.data_offset_flags & 0x0010) != 0
    }

    /// FIN flag.
    pub fn fin(&self) -> (r: bool)
        ensures
            r == self.spec_fin(),
    {
        (self.data_offset_flags & 0x0001) != 0
    }

    /// RST flag.
    pub fn rst(&self) -> (r: bool)
        ensures
            r == self.spec_rst(),
    {
        (self.data_offset_flags & 0x0004) != 0
    }

    /// PSH flag.
    pub fn psh(&self) -> (r: bool)
        ensures
            r == (self.data_offset_flags & 0x0008 != 0),
    {
        (self.data_offset_flags & 0x0008) != 0
    }

    /// The SYN bit.
    pub open spec fn spec_syn(&self) -> bool {
        self.data_offset_flags & 0x0002 != 0
    }

    /// The ACK bit.
    pub open spec fn spec_ack(&self) -> bool {
        self.data_offset_flags & 0x0010 != 0
    }

    /// The FIN bit.
    pub open spec fn spec_fin(&self) -> bool {
        self.data_offset_flags & 0x0001 != 0
    }

    /// The RST bit.
    pub open spec fn spec_rst(&self) -> bool {
        self.data_offset_flags & 0x0004 != 0
    }
}

/// Parsed TCP option kind.
#[derive(Debug, Clone, Copy, PartialEq, Eq, Structural)]
pub enum ParsedTcpOptionKind {
    EndOfList,
    NoOperation,
    MSS,
    WindowScale,
    SackPermitted,
    Timestamp,
    TcpFastOpen,
    Unknown(u8),
}

/// Parsed TCP option extracted from a packet.
#[derive(Debug, Clone, PartialEq, Eq)]
pub struct ParsedTcpOption {
    pub kind: ParsedTcpOptionKind,
    pub length: u8,
    pub data: Vec<u8>,
}

impl View for ParsedTcpOption {
    type V = (ParsedTcpOptionKind, u8, Seq<u8>);

    open spec fn view(&self) -> Self::V {
        (self.kind, self.length, self.data@)
    }
}

/// UDP header
#[derive(Debug, Clone, Copy)]
pub struct UdpHeader {
    /// Source port
    pub src_port: u16,
    /// Destination port
    pub dst_port: u16,
    /// Length of header and data
    pub length: u16,
    /// Checksum
    pub checksum: u16,
}

/// Network layer protocol
#[derive(Debug, Clone, Copy, PartialEq, Eq, Structural)]
pub enum NetworkProtocol {
    /// IPv4
    IPv4,
    /// IPv6
    IPv6,
    /// Unknown
    Unknown(u8),
}

/// Transport layer protocol
#[derive(Debug, Clone, Copy, PartialEq, Eq, Structural)]
pub enum TransportProtocol {
    /// TCP
    TCP,
    /// UDP
    UDP,
    /// TLS over TCP (HTTPS)
    TLS,
    /// QUIC (UDP-based)
    QUIC,
    /// Unknown
    Unknown(u8),
}

/// Complete parsed packet
#[derive(Debug, Clone)]
pub struct ParsedPacket {
    /// Packet capture time (seconds since epoch)
    pub timestamp_sec: u32,
    /// Packet capture time (microseconds)
    pub timestamp_usec: u32,
    /// Ethernet header (if present)
    pub ethernet: Option<EthernetHeader>,
    /// Network layer
    pub network_protocol: NetworkProtocol,
    /// IPv4 header (if IPv4)
    pub ipv4: Option<Ipv4Header>,
    /// IPv6 header (if IPv6)
    pub ipv6: Option<Ipv6Header>,
    /// Transport layer
    pub transport_protocol: TransportProtocol,
    /// TCP header (if TCP)
    pub tcp: Option<TcpHeader>,
    /// Parsed TCP options (if TCP)
    pub tcp_options: Vec<ParsedTcpOption>,
    /// UDP header (if UDP)
    pub udp: Option<UdpHeader>,
    /// Payload data
    pub payload: Vec<u8>,
    /// Total packet size (bytes)
    pub total_size: usize,
}

/// The abstract content of a [`ParsedPacket`].
pub struct PacketModel {
    pub timestamp_sec: u32,
    pub timestamp_usec: u32,
    pub ethernet: Option<EthernetHeader>,
    pub network_protocol: NetworkProtocol,
    pub ipv4: Option<Ipv4Header>,
    pub ipv6: Option<Ipv6Header>,
    pub transport_protocol: TransportProtocol,
    pub tcp: Option<TcpHeader>,
    pub tcp_options: Seq<(ParsedTcpOptionKind, u8, Seq<u8>)>,
    pub udp: Option<UdpHeader>,
    pub payload: Seq<u8>,
    pub total_size: usize,
}

/// Views of a sequence of options.
pub open spec fn options_view(s: Seq<ParsedTcpOption>) -> Seq<(ParsedTcpOptionKind, u8, Seq<u8>)> {
    Seq::new(s.len(), |i: int| s[i]@)
}

impl View for ParsedPacket {
    type V = PacketModel;

    open spec fn view(&self) -> PacketModel {
        PacketModel {
            timestamp_sec: self.timestamp_sec,
            timestamp_usec: self.timestamp_usec,
            ethernet: self.ethernet,
            network_protocol: self.network_protocol,
            ipv4: self.ipv4,
            ipv6: self.ipv6,
            transport_protocol: self.transport_protocol,
            tcp: self.tcp,
            tcp_options: options_view(self.tcp_options@),
            udp: self.udp,
            payload: self.payload@,
            total_size: self.total_size,
        }
    }
}

/// The dotted-quad text of an IPv4 address.
pub open spec fn dotted_quad(ip: [u8; 4]) -> Seq<char> {
    decimal(ip[0] as nat) + seq!['.'] + decimal(ip[1] as nat) + seq!['.'] + decimal(ip[2] as nat)
        + seq!['.'] + decimal(ip[3] as nat)
}

/// Text of the IPv4 source or destination of a packet, `"unknown"` without IPv4.
pub open spec fn ip_text(ipv4: Option<Ipv4Header>, source: bool) -> Seq<char> {
    match ipv4 {
        Some(h) => dotted_quad(if source { h.src_ip } else { h.dst_ip }),
        None => "unknown"@,
    }
}

/// Source port of a packet: the TCP one, else the UDP one.
pub open spec fn src_port_of(p: PacketModel) -> Option<u16> {
    match p.tcp {
        Some(t) => Some(t.src_port),
        None => match p.udp {
            Some(u) => Some(u.src_port),
            None => None,
        },
    }
}

/// Destination port of a packet: the TCP one, else the UDP one.
pub open spec fn dst_port_of(p: PacketModel) -> Option<u16> {
    match p.tcp {
        Some(t) => Some(t.dst_port),
        None => match p.udp {
            Some(u) => Some(u.dst_port),
            None => None,
        },
    }
}

/// Whether the packet carries TCP with SYN set.
pub open spec fn pkt_syn(p: PacketModel) -> bool {
    match p.tcp { Some(t) => t.spec_syn(), None => false }
}

/// Whether the packet carries TCP with ACK set.
pub open spec fn pkt_ack(p: PacketModel) -> bool {
    match p.tcp { Some(t) => t.spec_ack(), None => false }
}

/// Appends a dotted-quad address.
fn push_dotted_quad(out: &mut String, ip: [u8; 4])
    ensures
        final(out)@ == old(out)@ + dotted_quad(ip),
{
    push_decimal(out, ip[0] as u64);
    out.append(".");
    push_decimal(out, ip[1] as u64);
    out.append(".");
    push_decimal(out, ip[2] as u64);
    out.append(".");
    push_decimal(out, ip[3] as u64);
    proof {
        reveal_strlit(".");
    }
    assert(final(out)@ =~= old(out)@ + dotted_quad(ip));
}

impl ParsedPacket {
    /// Source IPv4 address as text, or `"unknown"`.
    pub fn src_ip(&self) -> (r: String)
        ensures
            r@ == ip_text(self.ipv4, true),
    {
        match &self.ipv4 {
            Some(hdr) => {
                let mut s: String = String::new();
                push_dotted_quad(&mut s, hdr.src_ip);
                assert(s@ =~= ip_text(self.ipv4, true));
                s
            },
            None => String::from_str("unknown"),
        }
    }

    /// Destination IPv4 address as text, or `"unknown"`.
    pub fn dst_ip(&self) -> (r: String)
        ensures
            r@ == ip_text(self.ipv4, false),
    {
        match &self.ipv4 {
            Some(hdr) => {
                let mut s: String = String::new();
                push_dotted_quad(&mut s, hdr.dst_ip);
                assert(s@ =~= ip_text(self.ipv4, false));
                s
            },
            None => String::from_str("unknown"),
        }
    }

    /// Source port (TCP, else UDP).
    pub fn src_port(&self) -> (r: Option<u16>)
        ensures
            r == src_port_of(self@),
    {
        match &self.tcp {
            Some(t) => Some(t.src_port),
            None => match &self.udp {
                Some(u) => Some(u.src_port),
                None => None,
            },
        }
    }

    /// Destination port (TCP, else UDP).
    pub fn dst_port(&self) -> (r: Option<u16>)
        ensures
            r == dst_port_of(self@),
    {
        match &self.tcp {
            Some(t) => Some(t.dst_port),
            None => match &self.udp {
                Some(u) => Some(u.dst_port),
                None => None,
            },
        }
    }

    /// TCP with SYN set.
    pub fn is_syn(&self) -> (r: bool)
        ensures
            r == pkt_syn(self@),
    {
        match &self.tcp {
            Some(t) => t.syn(),
            None => false,
        }
    }

    /// TCP with both SYN and ACK set.
    pub fn is_syn_ack(&self) -> (r: bool)
        ensures
            r == (pkt_syn(self@) && pkt_ack(self@)),
    {
        match &self.tcp {
            Some(t) => t.syn() && t.ack(),
            None => false,
        }
    }

    /// TCP with ACK set.
    pub fn is_ack(&self) -> (r: bool)
        ensures
            r == pkt_ack(self@),
    {
        match &self.tcp {
            Some(t) => t.ack(),
            None => false,
        }
    }

    /// TCP with FIN set.
    pub fn is_fin(&self) -> (r: bool)
        ensures
            r == match self.tcp { Some(t) => t.spec_fin(), None => false },
    {
        match &self.tcp {
            Some(t) => t.fin(),
            None => false,
        }
    }

    /// TCP with RST set.
    pub fn is_rst(&self) -> (r: bool)
        ensures
            r == match self.tcp { Some(t) => t.spec_rst(), None => false },
    {
        match &self.tcp {
            Some(t) => t.rst(),
            None => false,
        }
    }

    /// A copy with the same content.
    pub fn duplicate(&self) -> (r: Self)
        ensures
            r@ == self@,
    {
        let mut opts: Vec<ParsedTcpOption> = Vec::new();
        let mut i: usize = 0;
        while i < self.tcp_options.len()
            invariant
                i <= self.tcp_options@.len(),
                opts@.len() == i,
                options_view(opts@) == options_view(self.tcp_options@.subrange(0, i as int)),
            decreases self.tcp_options@.len() - i,
        {
            let o: &ParsedTcpOption = &self.tcp_options[i];
            let copy = ParsedTcpOption { kind: o.kind, length: o.length, data: slice_to_vec(o.data.as_slice()) };
            assert(copy@ == self.tcp_options@[i as int]@);
            let ghost before = opts@;
            opts.push(copy);
            assert(opts@ == before.push(copy));
            assert(self.tcp_options@.subrange(0, i + 1) =~= self.tcp_options@.subrange(0, i as int).push(self.tcp_options@[i as int]));
            proof {
                let old_sub = self.tcp_options@.subrange(0, i as int);
                let new_sub = self.tcp_options@.subrange(0, i + 1);
                assert forall|k: int| 0 <= k < i + 1 implies #[trigger] options_view(opts@)[k] == options_view(new_sub)[k] by {
                    if k < i {
                        assert(options_view(before)[k] == options_view(old_sub)[k]);
                    }
                }
                assert(options_view(opts@) =~= options_view(new_sub));
            }
            i = i + 1;
        }
        assert(self.tcp_options@.subrange(0, i as int) =~= self.tcp_options@);
        let r = ParsedPacket {
            timestamp_sec: self.timestamp_sec,
            timestamp_usec: self.timestamp_usec,
            ethernet: self.ethernet,
            network_protocol: self.network_protocol,
            ipv4: self.ipv4,
            ipv6: self.ipv6,
            transport_protocol: self.transport_protocol,
            tcp: self.tcp,
            tcp_options: opts,
            udp: self.udp,
            payload: slice_to_vec(self.payload.as_slice()),
            total_size: self.total_size,
        };
        assert(r@.tcp_options =~= self@.tcp_options);
        assert(r@.payload =~= self@.payload);
        r
    }
}


/// Ethernet header fields held by the first 14 bytes of `s`.
pub open spec fn spec_ethernet(s: Seq<u8>) -> EthernetHeader {
    EthernetHeader {
        dst_mac: [s[0], s[1], s[2], s[3], s[4], s[5]],
        src_mac: [s[6], s[7], s[8], s[9], s[10], s[11]],
        ether_type: be16(s, 12),
    }
}

/// IPv4 header fields held by the first 20 bytes of `s`.
pub open spec fn spec_ipv4(s: Seq<u8>) -> Ipv4Header {
    Ipv4Header {
        version_ihl: s[0],
        dscp_ecn: s[1],
        total_length: be16(s, 2),
        identification: be16(s, 4),
        flags_fragment_offset: be16(s, 6),
        ttl: s[8],
        protocol: s[9],
        checksum: be16(s, 10),
        src_ip: [s[12], s[13], s[14], s[15]],
        dst_ip: [s[16], s[17], s[18], s[19]],
    }
}

/// IPv6 header fields held by the first 40 bytes of `s`.
pub open spec fn spec_ipv6(s: Seq<u8>) -> Ipv6Header {
    Ipv6Header {
        version_traffic_class_high: s[0],
        traffic_class_flow_label_high: s[1],
        flow_label: be16(s, 2),
        payload_length: be16(s, 4),
        next_header: s[6],
        hop_limit: s[7],
        src_ip: [s[8], s[9], s[10], s[11], s[12], s[13], s[14], s[15], s[16], s[17], s[18], s[19], s[20], s[21], s[22], s[23]],
        dst_ip: [s[24], s[25], s[26], s[27], s[28], s[29], s[30], s[31], s[32], s[33], s[34], s[35], s[36], s[37], s[38], s[39]],
    }
}

/// TCP header fields held by the first 20 bytes of `s`.
pub open spec fn spec_tcp(s: Seq<u8>) -> TcpHeader {
    TcpHeader {
        src_port: be16(s, 0),
        dst_port: be16(s, 2),
        sequence_number: be32(s, 4),
        acknowledgment_number: be32(s, 8),
        data_offset_flags: be16(s, 12),
        window_size: be16(s, 14),
        checksum: be16(s, 16),
        urgent_pointer: be16(s, 18),
    }
}

/// UDP header fields held by the first 8 bytes of `s`.
pub open spec fn spec_udp(s: Seq<u8>) -> UdpHeader {
    UdpHeader { src_port: be16(s, 0), dst_port: be16(s, 2), length: be16(s, 4), checksum: be16(s, 6) }
}

/// IPv4 header length in bytes announced by the IHL field.
pub open spec fn ipv4_header_len(s: Seq<u8>) -> int {
    (s[0] % 16) * 4
}

/// TCP header length in bytes announced by the data offset field.
pub open spec fn tcp_header_len(s: Seq<u8>) -> int {
    (be16(s, 12) / 4096) * 4
}

/// UDP payload length announced by the length field (saturating at zero).
pub open spec fn udp_payload_len(s: Seq<u8>) -> int {
    if be16(s, 4) >= 8 { be16(s, 4) - 8 } else { 0 }
}

/// The UDP length field counts the 8-byte header: when the field `L` (bytes
/// 4 and 5, big-endian) is at least 8 and at most the datagram's size, the
/// datagram is long enough and its payload is exactly bytes `8..L`; a field
/// under 8 announces no payload; a field beyond the datagram's size makes
/// it too short.
pub proof fn lemma_udp_length_counts_header(s: Seq<u8>)
    requires
        s.len() >= 8,
    ensures
        8 <= s[4] as int * 256 + s[5] as int <= s.len() ==> {
            &&& udp_payload_len(s) == s[4] as int * 256 + s[5] as int - 8
            &&& !(s.len() < 8 || s.len() < udp_payload_len(s) + 8)
            &&& s.subrange(8, 8 + udp_payload_len(s)) == s.subrange(8, s[4] as int * 256 + s[5] as int)
        },
        (s[4] as int * 256 + s[5] as int) < 8 ==> udp_payload_len(s) == 0,
        s[4] as int * 256 + s[5] as int > s.len() ==> s.len() < udp_payload_len(s) + 8,
{
    let l = s[4] as int * 256 + s[5] as int;
    assert(0 <= l < 65536);
    assert(be16(s, 4) == l);
}

/// The option kind named by a kind byte.
pub open spec fn option_kind(k: u8) -> ParsedTcpOptionKind {
    if k == 2 {
        ParsedTcpOptionKind::MSS
    } else if k == 3 {
        ParsedTcpOptionKind::WindowScale
    } else if k == 4 {
        ParsedTcpOptionKind::SackPermitted
    } else if k == 8 {
        ParsedTcpOptionKind::Timestamp
    } else if k == 34 {
        ParsedTcpOptionKind::TcpFastOpen
    } else {
        ParsedTcpOptionKind::Unknown(k)
    }
}

/// The TCP options encoded in `d` from byte `idx` on.  Decoding stops at an
/// end-of-list option (which is kept), and at a truncated or malformed
/// option (which is dropped).
pub open spec fn tcp_options_from(d: Seq<u8>, idx: int) -> Seq<(ParsedTcpOptionKind, u8, Seq<u8>)>
    decreases d.len() - idx,
{
    if idx < 0 || idx >= d.len() {
        seq![]
    } else if d[idx] == 0 {
        seq![(ParsedTcpOptionKind::EndOfList, 1u8, Seq::<u8>::empty())]
    } else if d[idx] == 1 {
        seq![(ParsedTcpOptionKind::NoOperation, 1u8, Seq::<u8>::empty())] + tcp_options_from(d, idx + 1)
    } else if idx + 1 >= d.len() {
        seq![]
    } else {
        let len: int = d[idx + 1] as int;
        if len < 2 || idx + len > d.len() {
            seq![]
        } else {
            seq![(option_kind(d[idx]), d[idx + 1], d.subrange(idx + 2, idx + len))] + tcp_options_from(d, idx + len)
        }
    }
}

/// The TCP options encoded in `d`.
pub open spec fn tcp_options(d: Seq<u8>) -> Seq<(ParsedTcpOptionKind, u8, Seq<u8>)> {
    tcp_options_from(d, 0)
}

/// Packet decoding of a captured frame `s`: Ethernet, then IPv4 (TCP, UDP or
/// other), IPv6, or an unknown EtherType.  `None` where a layer is truncated.
pub open spec fn spec_parse_packet(s: Seq<u8>, ts: u32, tus: u32) -> Option<PacketModel> {
    if s.len() < 14 || s.len() > usize::MAX {
        None
    } else {
        let eth = spec_ethernet(s);
        let net = s.subrange(14, s.len() as int);
        let base = PacketModel {
            timestamp_sec: ts,
            timestamp_usec: tus,
            ethernet: Some(eth),
            network_protocol: NetworkProtocol::Unknown((eth.ether_type / 256) as u8),
            ipv4: None,
            ipv6: None,
            transport_protocol: TransportProtocol::Unknown(0),
            tcp: None,
            tcp_options: seq![],
            udp: None,
            payload: net,
            total_size: s.len() as usize,
        };
        if eth.ether_type == 0x0800 {
            if net.len() < 20 || net.len() < ipv4_header_len(net) {
                None
            } else {
                let ip = spec_ipv4(net);
                let tr = net.subrange(ipv4_header_len(net), net.len() as int);
                if ip.protocol == 6 {
                    if tr.len() < 20 || tr.len() < tcp_header_len(tr) || tcp_header_len(tr) < 20 {
                        None
                    } else {
                        Some(PacketModel {
                            network_protocol: NetworkProtocol::IPv4,
                            ipv4: Some(ip),
                            transport_protocol: TransportProtocol::TCP,
                            tcp: Some(spec_tcp(tr)),
                            tcp_options: tcp_options(tr.subrange(20, tcp_header_len(tr))),
                            payload: tr.subrange(tcp_header_len(tr), tr.len() as int),
                            ..base
                        })
                    }
                } else if ip.protocol == 17 {
                    if tr.len() < 8 || tr.len() < udp_payload_len(tr) + 8 {
                        None
                    } else {
                        Some(PacketModel {
                            network_protocol: NetworkProtocol::IPv4,
                            ipv4: Some(ip),
                            transport_protocol: TransportProtocol::UDP,
                            udp: Some(spec_udp(tr)),
                            payload: tr.subrange(8, 8 + udp_payload_len(tr)),
                            ..base
                        })
                    }
                } else {
                    Some(PacketModel {
                        network_protocol: NetworkProtocol::IPv4,
                        ipv4: Some(ip),
                        transport_protocol: TransportProtocol::Unknown(ip.protocol),
                        payload: tr,
                        ..base
                    })
                }
            }
        } else if eth.ether_type == 0x86dd {
            if net.len() < 40 {
                None
            } else {
                let ip6 = spec_ipv6(net);
                Some(PacketModel {
                    network_protocol: NetworkProtocol::IPv6,
                    ipv6: Some(ip6),
                    transport_protocol: TransportProtocol::Unknown(ip6.next_header),
                    payload: net.subrange(40, net.len() as int),
                    ..base
                })
            }
        } else {
            Some(base)
        }
    }
}

/// Decoder from raw bytes to [`ParsedPacket`].
pub struct PacketParser;

impl PacketParser {
    /// Ethernet header and the rest of the frame; `None` under 14 bytes.
    pub fn parse_ethernet(data: &[u8]) -> (r: Option<(EthernetHeader, &[u8])>)
        ensures
            r is None <==> data@.len() < 14,
            r matches Some((h, rest)) ==> h == spec_ethernet(data@) && rest@ == data@.subrange(14, data@.len() as int),
    {
        if data.len() < 14 {
            return None;
        }
        let ethernet = EthernetHeader {
            dst_mac: [data[0], data[1], data[2], data[3], data[4], data[5]],
            src_mac: [data[6], data[7], data[8], data[9], data[10], data[11]],
            ether_type: read_be16(data, 12),
        };
        Some((ethernet, &data[14..data.len()]))
    }

    /// IPv4 header and what follows its announced header length; `None` under
    /// 20 bytes or when shorter than the announced header length.
    pub fn parse_ipv4(data: &[u8]) -> (r: Option<(Ipv4Header, &[u8])>)
        ensures
            r is None <==> (data@.len() < 20 || data@.len() < ipv4_header_len(data@)),
            r matches Some((h, rest)) ==> h == spec_ipv4(data@)
                && rest@ == data@.subrange(ipv4_header_len(data@), data@.len() as int),
    {
        if data.len() < 20 {
            return None;
        }
        let ipv4 = Ipv4Header {
            version_ihl: data[0],
            dscp_ecn: data[1],
            total_length: read_be16(data, 2),
            identification: read_be16(data, 4),
            flags_fragment_offset: read_be16(data, 6),
            ttl: data[8],
            protocol: data[9],
            checksum: read_be16(data, 10),
            src_ip: [data[12], data[13], data[14], data[15]],
            dst_ip: [data[16], data[17], data[18], data[19]],
        };
        let header_len: usize = ipv4.ihl() as usize * 4;
        if data.len() < header_len {
            return None;
        }
        Some((ipv4, &data[header_len..data.len()]))
    }

    /// TCP header and what follows its announced header length; `None` under
    /// 20 bytes or when shorter than the announced header length.
    pub fn parse_tcp(data: &[u8]) -> (r: Option<(TcpHeader, &[u8])>)
        ensures
            r is None <==> (data@.len() < 20 || data@.len() < tcp_header_len(data@)),
            r matches Some((h, rest)) ==> h == spec_tcp(data@)
                && rest@ == data@.subrange(tcp_header_len(data@), data@.len() as int),
    {
        if data.len() < 20 {
            return None;
        }
        let tcp = Self::tcp_header(data);
        let header_len: usize = tcp.data_offset() as usize * 4;
        if data.len() < header_len {
            return None;
        }
        Some((tcp, &data[header_len..data.len()]))
    }

    /// The fixed part of a TCP header.
    fn tcp_header(data: &[u8]) -> (r: TcpHeader)
        requires
            data@.len() >= 20,
        ensures
            r == spec_tcp(data@),
    {
        TcpHeader {
            src_port: read_be16(data, 0),
            dst_port: read_be16(data, 2),
            sequence_number: read_be32(data, 4),
            acknowledgment_number: read_be32(data, 8),
            data_offset_flags: read_be16(data, 12),
            window_size: read_be16(data, 14),
            checksum: read_be16(data, 16),
            urgent_pointer: read_be16(data, 18),
        }
    }

    /// TCP header, its options and its payload; `None` under 20 bytes, when
    /// shorter than the announced header length, or when that length is under 20.
    pub fn parse_tcp_with_options(data: &[u8]) -> (r: Option<(TcpHeader, Vec<ParsedTcpOption>, &[u8])>)
        ensures
            r is None <==> (data@.len() < 20 || data@.len() < tcp_header_len(data@) || tcp_header_len(data@) < 20),
            r matches Some((h, opts, rest)) ==> h == spec_tcp(data@)
                && options_view(opts@) == tcp_options(data@.subrange(20, tcp_header_len(data@)))
                && rest@ == data@.subrange(tcp_header_len(data@), data@.len() as int),
    {
        if data.len() < 20 {
            return None;
        }
        let tcp = Self::tcp_header(data);
        let header_len: usize = tcp.data_offset() as usize * 4;
        if data.len() < header_len || header_len < 20 {
            return None;
        }
        let options = Self::parse_tcp_options(&data[20..header_len]);
        Some((tcp, options, &data[header_len..data.len()]))
    }

    /// UDP header and the payload of its announced length; `None` under 8
    /// bytes or when shorter than the announced length.
    pub fn parse_udp(data: &[u8]) -> (r: Option<(UdpHeader, &[u8])>)
        ensures
            r is None <==> (data@.len() < 8 || data@.len() < udp_payload_len(data@) + 8),
            r matches Some((h, rest)) ==> h == spec_udp(data@)
                && rest@ == data@.subrange(8, 8 + udp_payload_len(data@)),
            data@.len() >= 8 && 8 <= data@[4] as int * 256 + data@[5] as int <= data@.len() ==> (r matches Some(
                (h, rest),
            ) && rest@ == data@.subrange(8, data@[4] as int * 256 + data@[5] as int)),
            data@.len() >= 8 && (data@[4] as int * 256 + data@[5] as int) < 8 ==> (r matches Some((h, rest))
                && rest@.len() == 0),
            data@[4] as int * 256 + data@[5] as int > data@.len() ==> r is None,
    {
        if data.len() >= 8 {
            proof { lemma_udp_length_counts_header(data@); }
        }
        if data.len() < 8 {
            return None;
        }
        let udp = UdpHeader {
            src_port: read_be16(data, 0),
            dst_port: read_be16(data, 2),
            length: read_be16(data, 4),
            checksum: read_be16(data, 6),
        };
        let payload_len: usize = if udp.length >= 8 { (udp.length - 8) as usize } else { 0 };
        if data.len() < payload_len + 8 {
            return None;
        }
        Some((udp, &data[8..8 + payload_len]))
    }

    /// IPv6 fixed header and the rest; `None` under 40 bytes.
    pub fn parse_ipv6(data: &[u8]) -> (r: Option<(Ipv6Header, &[u8])>)
        ensures
            r is None <==> data@.len() < 40,
            r matches Some((h, rest)) ==> h == spec_ipv6(data@) && rest@ == data@.subrange(40, data@.len() as int),
    {
        if data.len() < 40 {
            return None;
        }
        let ipv6 = Ipv6Header {
            version_traffic_class_high: data[0],
            traffic_class_flow_label_high: data[1],
            flow_label: read_be16(data, 2),
            payload_length: read_be16(data, 4),
            next_header: data[6],
            hop_limit: data[7],
            src_ip: [data[8], data[9], data[10], data[11], data[12], data[13], data[14], data[15], data[16], data[17], data[18], data[19], data[20], data[21], data[22], data[23]],
            dst_ip: [data[24], data[25], data[26], data[27], data[28], data[29], data[30], data[31], data[32], data[33], data[34], data[35], data[36], data[37], data[38], data[39]],
        };
        Some((ipv6, &data[40..data.len()]))
    }

    /// The kind named by a kind byte.
    fn kind_of(k: u8) -> (r: ParsedTcpOptionKind)
        ensures
            r == option_kind(k),
    {
        match k {
            2 => ParsedTcpOptionKind::MSS,
            3 => ParsedTcpOptionKind::WindowScale,
            4 => ParsedTcpOptionKind::SackPermitted,
            8 => ParsedTcpOptionKind::Timestamp,
            34 => ParsedTcpOptionKind::TcpFastOpen,
            other => ParsedTcpOptionKind::Unknown(other),
        }
    }

    /// Decodes the option bytes of a TCP header.
    pub fn parse_tcp_options(data: &[u8]) -> (r: Vec<ParsedTcpOption>)
        ensures
            options_view(r@) == tcp_options(data@),
    {
        let mut options: Vec<ParsedTcpOption> = Vec::new();
        let mut idx: usize = 0;
        while idx < data.len()
            invariant
                idx <= data@.len(),
                options_view(options@) + tcp_options_from(data@, idx as int) == tcp_options(data@),
            decreases data@.len() - idx,
        {
            let ghost before = options@;
            let kind: u8 = data[idx];
            if kind == 0 {
                options.push(ParsedTcpOption { kind: ParsedTcpOptionKind::EndOfList, length: 1, data: Vec::new() });
                assert(options_view(options@) =~= options_view(before) + tcp_options_from(data@, idx as int));
                return options;
            } else if kind == 1 {
                options.push(ParsedTcpOption { kind: ParsedTcpOptionKind::NoOperation, length: 1, data: Vec::new() });
                assert(options_view(options@) =~= options_view(before).push((ParsedTcpOptionKind::NoOperation, 1u8, Seq::<u8>::empty())));
                assert(options_view(options@) + tcp_options_from(data@, idx + 1) =~= options_view(before) + tcp_options_from(data@, idx as int));
                idx = idx + 1;
            } else {
                if idx + 1 >= data.len() {
                    assert(tcp_options_from(data@, idx as int) =~= Seq::empty());
                    assert(options_view(options@) =~= options_view(options@) + tcp_options_from(data@, idx as int));
                    return options;
                }
                let length: usize = data[idx + 1] as usize;
                if length < 2 || length > data.len() - idx {
                    assert(tcp_options_from(data@, idx as int) =~= Seq::empty());
                    assert(options_view(options@) =~= options_view(options@) + tcp_options_from(data@, idx as int));
                    return options;
                }
                let payload: Vec<u8> = slice_to_vec(&data[idx + 2..idx + length]);
                let opt = ParsedTcpOption { kind: Self::kind_of(kind), length: length as u8, data: payload };
                options.push(opt);
                assert(options_view(options@) =~= options_view(before).push(opt@));
                assert(options_view(options@) + tcp_options_from(data@, (idx + length) as int) =~= options_view(before) + tcp_options_from(data@, idx as int));
                idx = idx + length;
            }
        }
        assert(tcp_options_from(data@, idx as int) =~= Seq::empty());
        assert(options_view(options@) =~= options_view(options@) + tcp_options_from(data@, idx as int));
        options
    }

    /// Decodes a captured Ethernet frame into a [`ParsedPacket`].
    pub fn parse_packet(data: &[u8], timestamp_sec: u32, timestamp_usec: u32) -> (r: Option<ParsedPacket>)
        ensures
            r is None <==> spec_parse_packet(data@, timestamp_sec, timestamp_usec) is None,
            r matches Some(p) ==> spec_parse_packet(data@, timestamp_sec, timestamp_usec) == Some(p@),
    {
        let total_size: usize = data.len();
        let (ethernet, network_payload) = match Self::parse_ethernet(data) {
            Some(x) => x,
            None => return None,
        };
        let ghost net = data@.subrange(14, data@.len() as int);
        if ethernet.ether_type == 0x0800 {
            let (ipv4, transport_payload) = match Self::parse_ipv4(network_payload) {
                Some(x) => x,
                None => return None,
            };
            if ipv4.protocol == 6 {
                let (tcp, tcp_options, payload) = match Self::parse_tcp_with_options(transport_payload) {
                    Some(x) => x,
                    None => return None,
                };
                let p = ParsedPacket {
                    timestamp_sec,
                    timestamp_usec,
                    ethernet: Some(ethernet),
                    network_protocol: NetworkProtocol::IPv4,
                    ipv4: Some(ipv4),
                    ipv6: None,
                    transport_protocol: TransportProtocol::TCP,
                    tcp: Some(tcp),
                    tcp_options,
                    udp: None,
                    payload: slice_to_vec(payload),
                    total_size,
                };
                assert(spec_parse_packet(data@, timestamp_sec, timestamp_usec) == Some(p@));
                Some(p)
            } else if ipv4.protocol == 17 {
                let (udp, payload) = match Self::parse_udp(transport_payload) {
                    Some(x) => x,
                    None => return None,
                };
                let p = ParsedPacket {
                    timestamp_sec,
                    timestamp_usec,
                    ethernet: Some(ethernet),
                    network_protocol: NetworkProtocol::IPv4,
                    ipv4: Some(ipv4),
                    ipv6: None,
                    transport_protocol: TransportProtocol::UDP,
                    tcp: None,
                    tcp_options: Vec::new(),
                    udp: Some(udp),
                    payload: slice_to_vec(payload),
                    total_size,
                };
                assert(p@.tcp_options =~= Seq::empty());
                assert(spec_parse_packet(data@, timestamp_sec, timestamp_usec) == Some(p@));
                Some(p)
            } else {
                let p = ParsedPacket {
                    timestamp_sec,
                    timestamp_usec,
                    ethernet: Some(ethernet),
                    network_protocol: NetworkProtocol::IPv4,
                    ipv4: Some(ipv4),
                    ipv6: None,
                    transport_protocol: TransportProtocol::Unknown(ipv4.protocol),
                    tcp: None,
                    tcp_options: Vec::new(),
                    udp: None,
                    payload: slice_to_vec(transport_payload),
                    total_size,
                };
                assert(p@.tcp_options =~= Seq::empty());
                assert(spec_parse_packet(data@, timestamp_sec, timestamp_usec) == Some(p@));
                Some(p)
            }
        } else if ethernet.ether_type == 0x86dd {
            let (ipv6, transport_payload) = match Self::parse_ipv6(network_payload) {
                Some(x) => x,
                None => return None,
            };
            let next_header: u8 = ipv6.next_header;
            let p = ParsedPacket {
                timestamp_sec,
                timestamp_usec,
                ethernet: Some(ethernet),
                network_protocol: NetworkProtocol::IPv6,
                ipv4: None,
                ipv6: Some(ipv6),
                transport_protocol: TransportProtocol::Unknown(next_header),
                tcp: None,
                tcp_options: Vec::new(),
                udp: None,
                payload: slice_to_vec(transport_payload),
                total_size,
            };
            assert(p@.tcp_options =~= Seq::empty());
            assert(spec_parse_packet(data@, timestamp_sec, timestamp_usec) == Some(p@));
            Some(p)
        } else {
            let p = ParsedPacket {
                timestamp_sec,
                timestamp_usec,
                ethernet: Some(ethernet),
                network_protocol: NetworkProtocol::Unknown((ethernet.ether_type / 256) as u8),
                ipv4: None,
                ipv6: None,
                transport_protocol: TransportProtocol::Unknown(0),
                tcp: None,
                tcp_options: Vec::new(),
                udp: None,
                payload: slice_to_vec(network_payload),
                total_size,
            };
            assert(p@.tcp_options =~= Seq::empty());
            assert(spec_parse_packet(data@, timestamp_sec, timestamp_usec) == Some(p@));
            Some(p)
        }
    }
}


/// The abstract content of a [`TcpFlow`].
pub struct FlowModel {
    pub src_ip: Seq<char>,
    pub dst_ip: Seq<char>,
    pub src_port: u16,
    pub dst_port: u16,
    pub syn_packet: Option<PacketModel>,
    pub syn_ack_packet: Option<PacketModel>,
    pub ack_packet: Option<PacketModel>,
    pub packets: Seq<PacketModel>,
    pub handshake_complete: bool,
}

/// The content of an optional packet.
pub open spec fn opt_packet(o: Option<ParsedPacket>) -> Option<PacketModel> {
    match o {
        Some(p) => Some(p@),
        None => None,
    }
}

/// The contents of a sequence of packets.
pub open spec fn packets_view(s: Seq<ParsedPacket>) -> Seq<PacketModel> {
    Seq::new(s.len(), |i: int| s[i]@)
}

/// Key under which a flow is tracked: `"src:sport -> dst:dport"`.
pub open spec fn flow_key_text(src_ip: Seq<char>, src_port: u16, dst_ip: Seq<char>, dst_port: u16) -> Seq<char> {
    src_ip + seq![':'] + decimal(src_port as nat) + " -> "@ + dst_ip + seq![':'] + decimal(dst_port as nat)
}

/// A flow that has seen no packet yet.
pub open spec fn empty_flow(src_ip: Seq<char>, dst_ip: Seq<char>, src_port: u16, dst_port: u16) -> FlowModel {
    FlowModel {
        src_ip,
        dst_ip,
        src_port,
        dst_port,
        syn_packet: None,
        syn_ack_packet: None,
        ack_packet: None,
        packets: seq![],
        handshake_complete: false,
    }
}

/// The flow after recording packet `p`: a pure SYN becomes the SYN packet, a
/// SYN-ACK the SYN-ACK packet, and the first ACK after a SYN-ACK the ACK
/// packet (which marks the handshake complete); every packet is appended.
pub open spec fn flow_after(f: FlowModel, p: PacketModel) -> FlowModel {
    let g = if pkt_syn(p) && !pkt_ack(p) {
        FlowModel { syn_packet: Some(p), ..f }
    } else if pkt_syn(p) && pkt_ack(p) {
        FlowModel { syn_ack_packet: Some(p), ..f }
    } else if pkt_ack(p) && f.syn_ack_packet is Some && f.ack_packet is None {
        FlowModel { ack_packet: Some(p), handshake_complete: true, ..f }
    } else {
        f
    };
    FlowModel { packets: f.packets.push(p), ..g }
}

/// Whether SYN, SYN-ACK and ACK packets have all been recorded.
pub open spec fn flow_complete(f: FlowModel) -> bool {
    f.syn_packet is Some && f.syn_ack_packet is Some && f.ack_packet is Some
}

/// TCP connection flow (for tracking handshakes)
#[derive(Debug, Clone)]
pub struct TcpFlow {
    /// Source IP
    pub src_ip: String,
    /// Destination IP
    pub dst_ip: String,
    /// Source port
    pub src_port: u16,
    /// Destination port
    pub dst_port: u16,
    /// SYN packet details
    pub syn_packet: Option<ParsedPacket>,
    /// SYN-ACK packet details
    pub syn_ack_packet: Option<ParsedPacket>,
    /// ACK packet details
    pub ack_packet: Option<ParsedPacket>,
    /// All packets in flow
    pub packets: Vec<ParsedPacket>,
    /// Handshake complete?
    pub handshake_complete: bool,
}

impl View for TcpFlow {
    type V = FlowModel;

    open spec fn view(&self) -> FlowModel {
        FlowModel {
            src_ip: self.src_ip@,
            dst_ip: self.dst_ip@,
            src_port: self.src_port,
            dst_port: self.dst_port,
            syn_packet: opt_packet(self.syn_packet),
            syn_ack_packet: opt_packet(self.syn_ack_packet),
            ack_packet: opt_packet(self.ack_packet),
            packets: packets_view(self.packets@),
            handshake_complete: self.handshake_complete,
        }
    }
}

/// Appends the key text of a flow.
fn push_flow_key(out: &mut String, src_ip: &str, src_port: u16, dst_ip: &str, dst_port: u16)
    ensures
        final(out)@ == old(out)@ + flow_key_text(src_ip@, src_port, dst_ip@, dst_port),
{
    out.append(src_ip);
    out.append(":");
    push_decimal(out, src_port as u64);
    out.append(" -> ");
    out.append(dst_ip);
    out.append(":");
    push_decimal(out, dst_port as u64);
    proof {
        reveal_strlit(":");
    }
    assert(final(out)@ =~= old(out)@ + flow_key_text(src_ip@, src_port, dst_ip@, dst_port));
}

impl TcpFlow {
    /// A flow with no packet recorded.
    pub fn new(src_ip: String, dst_ip: String, src_port: u16, dst_port: u16) -> (r: Self)
        ensures
            r@ == empty_flow(src_ip@, dst_ip@, src_port, dst_port),
    {
        let r = TcpFlow {
            src_ip,
            dst_ip,
            src_port,
            dst_port,
            syn_packet: None,
            syn_ack_packet: None,
            ack_packet: None,
            packets: Vec::new(),
            handshake_complete: false,
        };
        assert(r@.packets =~= Seq::<PacketModel>::empty());
        r
    }

    /// `"src:sport -> dst:dport"`.
    pub fn flow_key(&self) -> (r: String)
        ensures
            r@ == flow_key_text(self.src_ip@, self.src_port, self.dst_ip@, self.dst_port),
    {
        let mut s: String = String::new();
        push_flow_key(&mut s, self.src_ip.as_str(), self.src_port, self.dst_ip.as_str(), self.dst_port);
        assert(s@ =~= flow_key_text(self.src_ip@, self.src_port, self.dst_ip@, self.dst_port));
        s
    }

    /// Records a packet of this flow.
    pub fn add_packet(&mut self, packet: ParsedPacket)
        ensures
            final(self)@ == flow_after(old(self)@, packet@),
            final(self).packets@ == old(self).packets@.push(packet),
    {
        if packet.is_syn() && !packet.is_ack() {
            self.syn_packet = Some(packet.duplicate());
        } else if packet.is_syn_ack() {
            self.syn_ack_packet = Some(packet.duplicate());
        } else if packet.is_ack() && self.syn_ack_packet.is_some() && self.ack_packet.is_none() {
            self.ack_packet = Some(packet.duplicate());
            self.handshake_complete = true;
        }
        let ghost mid = self.packets@;
        self.packets.push(packet);
        assert(packets_view(self.packets@) =~= packets_view(mid).push(packet@));
    }

    /// Whether SYN, SYN-ACK and ACK have all been seen.
    pub fn has_complete_handshake(&self) -> (r: bool)
        ensures
            r == flow_complete(self@),
    {
        self.syn_packet.is_some() && self.syn_ack_packet.is_some() && self.ack_packet.is_some()
    }
}

/// A SYN, then a SYN-ACK, then an ACK recorded on a flow without an ACK
/// packet complete its handshake.
pub proof fn lemma_handshake_completes(f: FlowModel, syn: PacketModel, syn_ack: PacketModel, ack: PacketModel)
    requires
        f.ack_packet is None,
        pkt_syn(syn) && !pkt_ack(syn),
        pkt_syn(syn_ack) && pkt_ack(syn_ack),
        !pkt_syn(ack) && pkt_ack(ack),
    ensures
        flow_complete(flow_after(flow_after(flow_after(f, syn), syn_ack), ack)),
        flow_after(flow_after(flow_after(f, syn), syn_ack), ack).handshake_complete,
        flow_after(flow_after(flow_after(f, syn), syn_ack), ack).packets == f.packets.push(syn).push(syn_ack).push(ack),
{
}

/// Abstract content of a [`PacketFlowAnalyzer`].
pub struct AnalyzerModel {
    pub flows: Seq<(Seq<char>, FlowModel)>,
    pub total_packets: u64,
    pub ipv4_packets: u64,
    pub ipv6_packets: u64,
    pub tcp_packets: u64,
    pub udp_packets: u64,
    pub tls_handshakes: u64,
}

/// Whether the flow table holds each key once.
pub open spec fn keys_unique<T>(s: Seq<(String, T)>) -> bool {
    forall|i: int, j: int| 0 <= i < s.len() && 0 <= j < s.len() && i != j ==> s[i].0@ != s[j].0@
}

/// Whether some entry of the flow table has key `k`.
pub open spec fn has_key<T>(s: Seq<(String, T)>, k: Seq<char>) -> bool {
    exists|i: int| 0 <= i < s.len() && s[i].0@ == k
}

/// The flow table after recording TCP packet `p` under its flow key.
pub open spec fn flows_after_tcp(s: Seq<(String, TcpFlow)>, p: PacketModel) -> Seq<(Seq<char>, FlowModel)> {
    let v = flows_view(s);
    match (src_port_of(p), dst_port_of(p)) {
        (Some(sp), Some(dp)) => {
            let key = flow_key_text(ip_text(p.ipv4, true), sp, ip_text(p.ipv4, false), dp);
            if has_key(s, key) {
                let i = choose|i: int| 0 <= i < s.len() && s[i].0@ == key;
                v.update(i, (key, flow_after(v[i].1, p)))
            } else {
                v.push((key, flow_after(empty_flow(ip_text(p.ipv4, true), ip_text(p.ipv4, false), sp, dp), p)))
            }
        },
        _ => v,
    }
}

/// Contents of the flow table.
pub open spec fn flows_view(s: Seq<(String, TcpFlow)>) -> Seq<(Seq<char>, FlowModel)> {
    Seq::new(s.len(), |i: int| (s[i].0@, s[i].1@))
}

/// The flows of a table whose handshake is complete, in table order.
pub open spec fn complete_flows(s: Seq<(String, TcpFlow)>) -> Seq<TcpFlow>
    decreases s.len(),
{
    if s.len() == 0 {
        seq![]
    } else {
        complete_flows(s.drop_last()) + if flow_complete(s.last().1@) { seq![s.last().1] } else { seq![] }
    }
}

/// Packet flow analyzer (aggregates TCP flows)
#[derive(Debug, Clone)]
pub struct PacketFlowAnalyzer {
    /// TCP flows with their flow key, each key once
    pub flows: Vec<(String, TcpFlow)>,
    /// Total packets captured
    pub total_packets: u64,
    /// IPv4 packets
    pub ipv4_packets: u64,
    /// IPv6 packets
    pub ipv6_packets: u64,
    /// TCP packets
    pub tcp_packets: u64,
    /// UDP packets
    pub udp_packets: u64,
    /// TLS handshakes detected
    pub tls_handshakes: u64,
}

impl Default for PacketFlowAnalyzer {
    /// The same as [`PacketFlowAnalyzer::new`].
    fn default() -> (r: Self)
        ensures
            r.wf(),
            r.flows@.len() == 0,
            r.total_packets == 0,
            r.ipv4_packets == 0,
            r.ipv6_packets == 0,
            r.tcp_packets == 0,
            r.udp_packets == 0,
            r.tls_handshakes == 0,
    {
        Self::new()
    }
}

impl PacketFlowAnalyzer {
    /// Each flow key occurs once.
    pub open spec fn wf(&self) -> bool {
        keys_unique(self.flows@)
    }

    /// Whether every counter can still be incremented.
    pub open spec fn below_limits(&self) -> bool {
        &&& self.total_packets < u64::MAX
        &&& self.ipv4_packets < u64::MAX
        &&& self.ipv6_packets < u64::MAX
        &&& self.tcp_packets < u64::MAX
        &&& self.udp_packets < u64::MAX
        &&& self.tls_handshakes < u64::MAX
    }

    /// An analyzer with no flow and zero counters.
    pub fn new() -> (r: Self)
        ensures
            r.wf(),
            r.flows@.len() == 0,
            r.total_packets == 0,
            r.ipv4_packets == 0,
            r.ipv6_packets == 0,
            r.tcp_packets == 0,
            r.udp_packets == 0,
            r.tls_handshakes == 0,
    {
        PacketFlowAnalyzer {
            flows: Vec::new(),
            total_packets: 0,
            ipv4_packets: 0,
            ipv6_packets: 0,
            tcp_packets: 0,
            udp_packets: 0,
            tls_handshakes: 0,
        }
    }

    /// Counts a packet by network and transport protocol; TCP packets are
    /// recorded in their flow.
    pub fn add_packet(&mut self, packet: ParsedPacket)
        requires
            old(self).wf(),
            old(self).below_limits(),
        ensures
            final(self).wf(),
            final(self).total_packets == old(self).total_packets + 1,
            final(self).ipv4_packets == old(self).ipv4_packets + if packet.network_protocol == NetworkProtocol::IPv4 { 1int } else { 0int },
            final(self).ipv6_packets == old(self).ipv6_packets + if packet.network_protocol == NetworkProtocol::IPv6 { 1int } else { 0int },
            final(self).tcp_packets == old(self).tcp_packets + if packet.transport_protocol == TransportProtocol::TCP { 1int } else { 0int },
            final(self).udp_packets == old(self).udp_packets + if packet.transport_protocol == TransportProtocol::UDP { 1int } else { 0int },
            final(self).tls_handshakes == old(self).tls_handshakes + if packet.transport_protocol == TransportProtocol::TLS { 1int } else { 0int },
            flows_view(final(self).flows@) == if packet.transport_protocol == TransportProtocol::TCP {
                flows_after_tcp(old(self).flows@, packet@)
            } else {
                flows_view(old(self).flows@)
            },
    {
        self.total_packets = self.total_packets + 1;
        match packet.network_protocol {
            NetworkProtocol::IPv4 => self.ipv4_packets = self.ipv4_packets + 1,
            NetworkProtocol::IPv6 => self.ipv6_packets = self.ipv6_packets + 1,
            _ => {},
        }
        match packet.transport_protocol {
            TransportProtocol::TCP => {
                self.tcp_packets = self.tcp_packets + 1;
                self.add_tcp_packet(packet);
            },
            TransportProtocol::UDP => self.udp_packets = self.udp_packets + 1,
            TransportProtocol::TLS => self.tls_handshakes = self.tls_handshakes + 1,
            _ => {},
        }
    }

    /// Records a TCP packet in the flow of its key, creating the flow first
    /// when it is new.
    #[verifier::loop_isolation(false)]
    fn add_tcp_packet(&mut self, packet: ParsedPacket)
        requires
            old(self).wf(),
        ensures
            final(self).wf(),
            flows_view(final(self).flows@) == flows_after_tcp(old(self).flows@, packet@),
            final(self).total_packets == old(self).total_packets,
            final(self).ipv4_packets == old(self).ipv4_packets,
            final(self).ipv6_packets == old(self).ipv6_packets,
            final(self).tcp_packets == old(self).tcp_packets,
            final(self).udp_packets == old(self).udp_packets,
            final(self).tls_handshakes == old(self).tls_handshakes,
    {
        let sp = packet.src_port();
        let dp = packet.dst_port();
        if let (Some(src_port), Some(dst_port)) = (sp, dp) {
            let src_ip: String = packet.src_ip();
            let dst_ip: String = packet.dst_ip();
            let mut key: String = String::new();
            push_flow_key(&mut key, src_ip.as_str(), src_port, dst_ip.as_str(), dst_port);
            let ghost k = key@;
            assert(k =~= flow_key_text(ip_text(packet@.ipv4, true), src_port, ip_text(packet@.ipv4, false), dst_port));
            let mut i: usize = 0;
            let n: usize = self.flows.len();
            while i < n
                invariant
                    n == self.flows@.len(),
                    i <= n,
                    key@ == k,
                    keys_unique(self.flows@),
                    self.flows@ == old(self).flows@,
                    self.total_packets == old(self).total_packets,
                    self.ipv4_packets == old(self).ipv4_packets,
                    self.ipv6_packets == old(self).ipv6_packets,
                    self.tcp_packets == old(self).tcp_packets,
                    self.udp_packets == old(self).udp_packets,
                    self.tls_handshakes == old(self).tls_handshakes,
                    k == flow_key_text(ip_text(packet@.ipv4, true), src_port, ip_text(packet@.ipv4, false), dst_port),
                    src_port_of(packet@) == Some(src_port),
                    dst_port_of(packet@) == Some(dst_port),
                    forall|j: int| 0 <= j < i ==> self.flows@[j].0@ != k,
                decreases n - i,
            {
                if self.flows[i].0.eq(&key) {
                    let ghost old_flows = self.flows@;
                    let (fk, mut flow) = self.flows.remove(i);
                    flow.add_packet(packet);
                    self.flows.insert(i, (fk, flow));
                    proof {
                        assert(has_key(old_flows, k));
                        let c = choose|c: int| 0 <= c < old_flows.len() && old_flows[c].0@ == k;
                        assert(c == i);
                        assert(self.flows@ =~= old_flows.update(i as int, (fk, flow)));
                        assert(flows_view(self.flows@) =~= flows_view(old_flows).update(i as int, (k, flow_after(flows_view(old_flows)[i as int].1, packet@))));
                        assert(keys_unique(self.flows@));
                    }
                    return;
                }
                i = i + 1;
            }
            let ghost old_flows = self.flows@;
            let mut flow = TcpFlow::new(src_ip, dst_ip, src_port, dst_port);
            flow.add_packet(packet);
            self.flows.push((key, flow));
            proof {
                assert(!has_key(old_flows, k));
                assert(flows_view(self.flows@) =~= flows_view(old_flows).push((k, flow@)));
                assert(keys_unique(self.flows@));
            }
        } else {
        }
    }

    /// The flows whose handshake is complete.
    pub fn complete_handshakes(&self) -> (r: Vec<&TcpFlow>)
        ensures
            r@.len() == complete_flows(self.flows@).len(),
            forall|i: int| 0 <= i < r@.len() ==> *r@[i] == complete_flows(self.flows@)[i],
    {
        let mut out: Vec<&TcpFlow> = Vec::new();
        let mut i: usize = 0;
        while i < self.flows.len()
            invariant
                i <= self.flows@.len(),
                out@.len() == complete_flows(self.flows@.subrange(0, i as int)).len(),
                forall|j: int| 0 <= j < out@.len() ==> *out@[j] == complete_flows(self.flows@.subrange(0, i as int))[j],
            decreases self.flows@.len() - i,
        {
            let ghost prev = self.flows@.subrange(0, i as int);
            assert(self.flows@.subrange(0, i + 1).drop_last() =~= prev);
            let flow: &TcpFlow = &self.flows[i].1;
            if flow.has_complete_handshake() {
                out.push(flow);
            }
            i = i + 1;
        }
        assert(self.flows@.subrange(0, i as int) =~= self.flows@);
        out
    }

    /// Summary of the counters, the number of flows and of complete handshakes.
    pub fn get_summary(&self) -> (r: String)
        ensures
            r@ == "Packets captured: "@ + decimal(self.total_packets as nat) + "\n  IPv4: "@
                + decimal(self.ipv4_packets as nat) + ", IPv6: "@ + decimal(self.ipv6_packets as nat)
                + "\n  TCP: "@ + decimal(self.tcp_packets as nat) + ", UDP: "@ + decimal(self.udp_packets as nat)
                + "\n  TCP Flows: "@ + decimal(self.flows@.len()) + "\n  Complete handshakes: "@
                + decimal(complete_flows(self.flows@).len()),
    {
        let mut s: String = String::new();
        s.append("Packets captured: ");
        push_decimal(&mut s, self.total_packets);
        s.append("\n  IPv4: ");
        push_decimal(&mut s, self.ipv4_packets);
        s.append(", IPv6: ");
        push_decimal(&mut s, self.ipv6_packets);
        s.append("\n  TCP: ");
        push_decimal(&mut s, self.tcp_packets);
        s.append(", UDP: ");
        push_decimal(&mut s, self.udp_packets);
        s.append("\n  TCP Flows: ");
        push_decimal(&mut s, self.flows.len() as u64);
        s.append("\n  Complete handshakes: ");
        let complete: Vec<&TcpFlow> = self.complete_handshakes();
        push_decimal(&mut s, complete.len() as u64);
        s
    }
}

} // verus!

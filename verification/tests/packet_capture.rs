use fingerprint::packet_capture::{
    Ipv4Header, NetworkProtocol, PacketFlowAnalyzer, PacketParser, ParsedTcpOptionKind, PcapGlobalHeader,
    TcpFlow, TcpHeader, TransportProtocol,
};

#[test]
fn test_pcap_header_creation() {
    let header = PcapGlobalHeader::standard();
    assert!(header.is_valid());
    assert!(!header.needs_byte_swap());
}

#[test]
fn test_ipv4_header_flags() {
    let hdr = Ipv4Header {
        version_ihl: 0x45,
        dscp_ecn: 0,
        total_length: 0,
        identification: 0,
        flags_fragment_offset: 0x4000,
        ttl: 64,
        protocol: 6,
        checksum: 0,
        src_ip: [192, 168, 1, 1],
        dst_ip: [192, 168, 1, 2],
    };

    assert_eq!(hdr.version(), 4);
    assert_eq!(hdr.ihl(), 5);
    assert!(hdr.df_flag());
    assert!(!hdr.mf_flag());
}

#[test]
fn test_tcp_header_flags() {
    let tcp = TcpHeader {
        src_port: 443,
        dst_port: 59432,
        sequence_number: 1000,
        acknowledgment_number: 2000,
        data_offset_flags: 0x3002,
        window_size: 64240,
        checksum: 0,
        urgent_pointer: 0,
    };

    assert_eq!(tcp.data_offset(), 3);
    assert!(tcp.syn());
    assert!(!tcp.ack());
    assert!(!tcp.fin());
}

#[test]
fn test_tcp_flow_creation() {
    let flow = TcpFlow::new("192.168.1.1".to_string(), "192.168.1.2".to_string(), 54321, 443);

    assert_eq!(flow.src_ip, "192.168.1.1");
    assert_eq!(flow.dst_port, 443);
    assert!(!flow.handshake_complete);
}

#[test]
fn test_packet_flow_analyzer() {
    let analyzer = PacketFlowAnalyzer::new();
    assert_eq!(analyzer.total_packets, 0);
    assert_eq!(analyzer.complete_handshakes().len(), 0);
}

#[test]
fn test_ethernet_format() {
    let data = [
        0xff, 0xff, 0xff, 0xff, 0xff, 0xff, 0x00, 0x11, 0x22, 0x33, 0x44, 0x55, 0x08, 0x00,
    ];

    let (eth, _) = PacketParser::parse_ethernet(&data).unwrap();
    assert_eq!(eth.ether_type, 0x0800);
}

#[test]
fn test_ipv4_parse() {
    let data = [
        0x45, 0x00, 0x00, 0x54, 0x00, 0x00, 0x40, 0x00, 0x40, 0x06, 0x00, 0x00, 192, 168, 1, 1, 192, 168, 1, 2,
        0, 0, 0, 0, 0, 0, 0, 0, 0, 0, 0, 0, 0, 0, 0, 0, 0, 0, 0, 0, 0, 0, 0, 0, 0, 0, 0, 0, 0,
        0, 0, 0, 0, 0, 0, 0, 0, 0, 0, 0, 0, 0, 0, 0, 0, 0, 0, 0, 0, 0, 0, 0, 0, 0, 0, 0, 0, 0,
        0, 0, 0, 0, 0, 0, 0, 0, 0, 0, 0, 0, 0, 0, 0, 0, 0, 0, 0, 0, 0, 0, 0, 0, 0, 0,
    ];

    let (ipv4, _) = PacketParser::parse_ipv4(&data).unwrap();
    assert_eq!(ipv4.version(), 4);
    assert_eq!(ipv4.ihl(), 5);
    assert!(ipv4.df_flag());
    assert_eq!(ipv4.protocol, 6);
}

#[test]
fn test_tcp_parse() {
    let data = [
        0x00, 0x50, 0xea, 0xa8, 0x00, 0x00, 0x00, 0x00, 0x00, 0x00, 0x00, 0x00, 0x50, 0x02, 0xfa, 0xf0, 0x00,
        0x00, 0x00, 0x00,
    ];

    let (tcp, _) = PacketParser::parse_tcp(&data).unwrap();
    assert_eq!(tcp.src_port, 80);
    assert_eq!(tcp.dst_port, 60072);
    assert_eq!(tcp.data_offset(), 5);
    assert!(tcp.syn());
}

#[test]
fn test_parse_tcp_with_options_extracts_mss_and_window_scale() {
    let data = [
        0x00, 0x50, 0xea, 0xa8, 0x00, 0x00, 0x00, 0x01, 0x00, 0x00, 0x00, 0x00, 0x70, 0x02, 0xfa, 0xf0, 0x00,
        0x00, 0x00, 0x00, 0x02, 0x04, 0x05, 0xb4, 0x03, 0x03, 0x08, 0x01,
    ];

    let (_, options, payload) = PacketParser::parse_tcp_with_options(&data).unwrap();
    assert!(payload.is_empty());
    assert_eq!(options.len(), 3);
    assert_eq!(options[0].kind, ParsedTcpOptionKind::MSS);
    assert_eq!(options[1].kind, ParsedTcpOptionKind::WindowScale);
}

#[test]
fn test_parse_packet_builds_structured_tcp_packet() {
    let packet = [
        0xff, 0xff, 0xff, 0xff, 0xff, 0xff, 0x00, 0x11, 0x22, 0x33, 0x44, 0x55, 0x08, 0x00, 0x45, 0x00, 0x00,
        0x30, 0x00, 0x00, 0x40, 0x00, 0x40, 0x06, 0x00, 0x00, 192, 168, 1, 1, 192, 168, 1, 2, 0x00, 0x50, 0xea,
        0xa8, 0x00, 0x00, 0x00, 0x01, 0x00, 0x00, 0x00, 0x00, 0x70, 0x02, 0xfa, 0xf0, 0x00, 0x00, 0x00, 0x00,
        0x02, 0x04, 0x05, 0xb4, 0x03, 0x03, 0x08, 0x01,
    ];

    let parsed = PacketParser::parse_packet(&packet, 1, 2).unwrap();
    assert_eq!(parsed.timestamp_sec, 1);
    assert_eq!(parsed.network_protocol, NetworkProtocol::IPv4);
    assert_eq!(parsed.transport_protocol, TransportProtocol::TCP);
    assert_eq!(parsed.tcp_options.len(), 3);
    assert!(parsed.is_syn());
}

fn tcp_frame(src: [u8; 4], dst: [u8; 4], sport: u16, dport: u16, flags: u8) -> Vec<u8> {
    let mut p = vec![0xff, 0xff, 0xff, 0xff, 0xff, 0xff, 0x00, 0x11, 0x22, 0x33, 0x44, 0x55, 0x08, 0x00];
    p.extend_from_slice(&[0x45, 0x00, 0x00, 0x28, 0x00, 0x00, 0x40, 0x00, 0x40, 0x06, 0x00, 0x00]);
    p.extend_from_slice(&src);
    p.extend_from_slice(&dst);
    p.extend_from_slice(&sport.to_be_bytes());
    p.extend_from_slice(&dport.to_be_bytes());
    p.extend_from_slice(&[0, 0, 0, 1, 0, 0, 0, 0, 0x50, flags, 0xfa, 0xf0, 0, 0, 0, 0]);
    p
}

#[test]
fn test_flow_handshake_completes_after_syn_synack_ack() {
    let a = [10, 0, 0, 1];
    let b = [10, 0, 0, 2];
    let syn = PacketParser::parse_packet(&tcp_frame(a, b, 5000, 443, 0x02), 0, 0).unwrap();
    let syn_ack = PacketParser::parse_packet(&tcp_frame(a, b, 5000, 443, 0x12), 0, 0).unwrap();
    let ack = PacketParser::parse_packet(&tcp_frame(a, b, 5000, 443, 0x10), 0, 0).unwrap();
    assert!(syn.is_syn() && !syn.is_syn_ack());
    assert!(syn_ack.is_syn_ack());

    let mut flow = TcpFlow::new("10.0.0.1".to_string(), "10.0.0.2".to_string(), 5000, 443);
    flow.add_packet(syn);
    assert!(!flow.has_complete_handshake());
    flow.add_packet(syn_ack);
    assert!(!flow.has_complete_handshake());
    flow.add_packet(ack);
    assert!(flow.has_complete_handshake());
    assert_eq!(flow.flow_key(), "10.0.0.1:5000 -> 10.0.0.2:443");
}

#[test]
fn test_analyzer_counts_and_groups_flows() {
    let a = [10, 0, 0, 1];
    let b = [10, 0, 0, 2];
    let mut analyzer = PacketFlowAnalyzer::default();
    for flags in [0x02u8, 0x12, 0x10] {
        let p = PacketParser::parse_packet(&tcp_frame(a, b, 5000, 443, flags), 0, 0).unwrap();
        analyzer.add_packet(p);
    }
    let other = PacketParser::parse_packet(&tcp_frame(a, b, 5001, 443, 0x02), 0, 0).unwrap();
    analyzer.add_packet(other);
    assert_eq!(analyzer.total_packets, 4);
    assert_eq!(analyzer.ipv4_packets, 4);
    assert_eq!(analyzer.tcp_packets, 4);
    assert_eq!(analyzer.flows.len(), 2);
    assert_eq!(analyzer.complete_handshakes().len(), 1);
    let summary = analyzer.get_summary();
    assert!(summary.contains("4"));
}

#[test]
fn test_parse_rejects_short_frames() {
    assert!(PacketParser::parse_ethernet(&[0u8; 13]).is_none());
    assert!(PacketParser::parse_tcp(&[0u8; 19]).is_none());
    assert!(PacketParser::parse_udp(&[0u8; 7]).is_none());
    assert!(PacketParser::parse_packet(&[0u8; 5], 0, 0).is_none());
}

#[test]
fn test_ip_and_port_accessors() {
    let p = PacketParser::parse_packet(&tcp_frame([192, 168, 0, 7], [8, 8, 8, 8], 1234, 53, 0x18), 0, 0).unwrap();
    assert_eq!(p.src_ip(), "192.168.0.7");
    assert_eq!(p.dst_ip(), "8.8.8.8");
    assert_eq!(p.src_port(), Some(1234));
    assert_eq!(p.dst_port(), Some(53));
    assert!(p.is_ack());
    assert!(!p.is_fin());
    assert!(!p.is_rst());
}

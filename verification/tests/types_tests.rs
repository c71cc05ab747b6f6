//! Tests for the basic packet types and checksum calculations.

use gdpi_core::parser::PacketParser;
use gdpi_core::ports;
use gdpi_core::types::{Direction, IpVersion, Protocol, TcpFlags};

#[test]
fn test_tcp_flags_roundtrip() {
    let flags = TcpFlags { syn: true, ack: true, ..Default::default() };

    let byte = flags.to_byte();
    let parsed = TcpFlags::from_byte(byte);

    assert_eq!(flags, parsed);
}

#[test]
fn test_tcp_flags_all_set() {
    let flags = TcpFlags {
        fin: true,
        syn: true,
        rst: true,
        psh: true,
        ack: true,
        urg: true,
        ece: true,
        cwr: true,
    };

    assert_eq!(flags.to_byte(), 0xFF);
    assert_eq!(TcpFlags::from_byte(0xFF), flags);
}

#[test]
fn test_tcp_flags_none_set() {
    let flags = TcpFlags::default();
    assert_eq!(flags.to_byte(), 0x00);
}

#[test]
fn test_tcp_flags_individual() {
    // Test each flag individually
    assert_eq!(TcpFlags::from_byte(0x01).fin, true);
    assert_eq!(TcpFlags::from_byte(0x02).syn, true);
    assert_eq!(TcpFlags::from_byte(0x04).rst, true);
    assert_eq!(TcpFlags::from_byte(0x08).psh, true);
    assert_eq!(TcpFlags::from_byte(0x10).ack, true);
    assert_eq!(TcpFlags::from_byte(0x20).urg, true);
    assert_eq!(TcpFlags::from_byte(0x40).ece, true);
    assert_eq!(TcpFlags::from_byte(0x80).cwr, true);
}

#[test]
fn test_tcp_flags_syn_ack() {
    // Common SYN-ACK combination
    let flags = TcpFlags::from_byte(0x12); // SYN + ACK
    assert!(flags.syn);
    assert!(flags.ack);
    assert!(!flags.fin);
    assert!(!flags.rst);
}

#[test]
fn test_protocol_from_u8() {
    assert_eq!(Protocol::from_u8(6), Protocol::Tcp);
    assert_eq!(Protocol::from_u8(17), Protocol::Udp);
    assert_eq!(Protocol::from_u8(1), Protocol::Icmp);
    assert_eq!(Protocol::from_u8(58), Protocol::Icmpv6);
    assert_eq!(Protocol::from_u8(99), Protocol::Unknown);
    assert_eq!(Protocol::from_u8(0), Protocol::Unknown);
    assert_eq!(Protocol::from_u8(255), Protocol::Unknown);
}

#[test]
fn test_protocol_to_u8() {
    assert_eq!(Protocol::Tcp.to_u8(), 6);
    assert_eq!(Protocol::Udp.to_u8(), 17);
    assert_eq!(Protocol::Icmp.to_u8(), 1);
    assert_eq!(Protocol::Icmpv6.to_u8(), 58);
    assert_eq!(Protocol::Unknown.to_u8(), 0);
}

#[test]
fn test_protocol_roundtrip() {
    for proto in [Protocol::Tcp, Protocol::Udp, Protocol::Icmp, Protocol::Icmpv6] {
        let num = proto.to_u8();
        assert_eq!(Protocol::from_u8(num), proto);
    }
}

#[test]
fn test_direction_equality() {
    assert_eq!(Direction::Outbound, Direction::Outbound);
    assert_eq!(Direction::Inbound, Direction::Inbound);
    assert_ne!(Direction::Outbound, Direction::Inbound);
}

#[test]
fn test_ip_version_equality() {
    assert_eq!(IpVersion::V4, IpVersion::V4);
    assert_eq!(IpVersion::V6, IpVersion::V6);
    assert_ne!(IpVersion::V4, IpVersion::V6);
}

#[test]
fn test_well_known_ports() {
    assert_eq!(ports::HTTP, 80);
    assert_eq!(ports::HTTPS, 443);
    assert_eq!(ports::DNS, 53);
    assert_eq!(ports::QUIC, 443);
}

#[test]
fn test_internet_checksum_rfc1071() {
    // The classic reference example
    let data = [0x00, 0x01, 0xf2, 0x03, 0xf4, 0xf5, 0xf6, 0xf7];
    let checksum = PacketParser::internet_checksum(&data);
    assert_eq!(checksum, 0x220d);
}

#[test]
fn test_internet_checksum_empty() {
    let data: [u8; 0] = [];
    let checksum = PacketParser::internet_checksum(&data);
    assert_eq!(checksum, 0xFFFF); // !0 for empty data
}

#[test]
fn test_internet_checksum_odd_length() {
    // Odd-length data should be padded
    let data = [0x00, 0x01, 0x02];
    let checksum = PacketParser::internet_checksum(&data);
    // Should handle odd byte correctly
    assert!(checksum != 0);
}

#[test]
fn test_internet_checksum_all_zeros() {
    let data = [0x00, 0x00, 0x00, 0x00];
    let checksum = PacketParser::internet_checksum(&data);
    assert_eq!(checksum, 0xFFFF);
}

#[test]
fn test_internet_checksum_all_ones() {
    let data = [0xFF, 0xFF, 0xFF, 0xFF];
    let checksum = PacketParser::internet_checksum(&data);
    assert_eq!(checksum, 0x0000);
}

#[test]
fn test_tcp_checksum_ipv4() {
    // Create a minimal TCP segment
    let src_ip = [192, 168, 1, 1];
    let dst_ip = [192, 168, 1, 2];

    // TCP header with SYN flag
    let tcp_segment = [
        0x30, 0x39, // Source port: 12345
        0x00, 0x50, // Dest port: 80
        0x00, 0x00, 0x00, 0x01, // Seq num
        0x00, 0x00, 0x00, 0x00, // Ack num
        0x50, 0x02, // Data offset + SYN flag
        0x72, 0x10, // Window size
        0x00, 0x00, // Checksum (zero for calculation)
        0x00, 0x00, // Urgent pointer
    ];

    let checksum = PacketParser::tcp_checksum_ipv4(&src_ip, &dst_ip, &tcp_segment);
    // Checksum should be non-zero for valid data
    assert!(checksum != 0);
}

#[test]
fn test_udp_checksum_ipv4() {
    let src_ip = [10, 0, 0, 1];
    let dst_ip = [10, 0, 0, 2];

    // Minimal UDP segment (8 byte header)
    let udp_segment = [
        0x00, 0x35, // Source port: 53 (DNS)
        0x00, 0x35, // Dest port: 53
        0x00, 0x08, // Length: 8 bytes
        0x00, 0x00, // Checksum (zero for calculation)
    ];

    let checksum = PacketParser::udp_checksum_ipv4(&src_ip, &dst_ip, &udp_segment);
    assert!(checksum != 0);
}

#[test]
fn test_ipv4_header_checksum() {
    // Standard IPv4 header (20 bytes)
    let header = [
        0x45, 0x00, // Version, IHL, DSCP, ECN
        0x00, 0x3c, // Total length: 60
        0x1c, 0x46, // Identification
        0x40, 0x00, // Flags, Fragment offset
        0x40, 0x06, // TTL: 64, Protocol: TCP
        0x00, 0x00, // Checksum (will be calculated)
        0xac, 0x10, 0x0a, 0x63, // Source IP: 172.16.10.99
        0xac, 0x10, 0x0a, 0x0c, // Dest IP: 172.16.10.12
    ];

    let checksum = PacketParser::ipv4_header_checksum(&header);
    // Known checksum for this header is 0xb1e6
    assert_eq!(checksum, 0xb1e6);
}

#[test]
fn test_checksum_verification() {
    // When a correct checksum is included, recalculating should give 0
    let header_with_checksum = [
        0x45, 0x00, 0x00, 0x3c, 0x1c, 0x46, 0x40, 0x00, 0x40, 0x06, 0xb1, 0xe6, // checksum
        0xac, 0x10, 0x0a, 0x63, 0xac, 0x10, 0x0a, 0x0c,
    ];

    let verification = PacketParser::internet_checksum(&header_with_checksum);
    assert_eq!(verification, 0x0000); // Valid checksum
}

//! Tests for packet parsing, building and manipulation.

use gdpi_core::builder::PacketBuilder;
use gdpi_core::error::Error;
use gdpi_core::packet::Packet;
use gdpi_core::types::{Direction, Protocol, TcpFlags};

/// Minimal valid IPv4 TCP packet, 40 bytes.
fn create_test_tcp_packet() -> Vec<u8> {
    vec![
        // IPv4 header (20 bytes)
        0x45, 0x00, 0x00, 0x28, // Version, IHL, TOS, Total Length
        0x00, 0x01, 0x00, 0x00, // ID, Flags, Fragment
        0x40, 0x06, 0x00, 0x00, // TTL, Protocol (TCP), Checksum
        0xC0, 0xA8, 0x01, 0x01, // Source IP (192.168.1.1)
        0xC0, 0xA8, 0x01, 0x02, // Dest IP (192.168.1.2)
        // TCP header (20 bytes)
        0x00, 0x50, 0x01, 0xBB, // Src Port (80), Dst Port (443)
        0x00, 0x00, 0x00, 0x01, // Sequence Number
        0x00, 0x00, 0x00, 0x01, // Ack Number
        0x50, 0x18, 0x00, 0x00, // Data Offset, Flags (ACK+PSH), Window
        0x00, 0x00, 0x00, 0x00, // Checksum, Urgent Pointer
    ]
}

/// Minimal IPv4 TCP SYN packet.
fn create_tcp_syn_packet() -> Vec<u8> {
    vec![
        0x45, 0x00, 0x00, 0x28, 0x00, 0x01, 0x00, 0x00, 0x40, 0x06, 0x00, 0x00, 0xC0, 0xA8,
        0x01, 0x01, 0xC0, 0xA8, 0x01, 0x02, 0x04, 0xD2, 0x00, 0x50, 0x00, 0x00, 0x00, 0x01,
        0x00, 0x00, 0x00, 0x00, 0x50, 0x02, 0xFF, 0xFF, 0x00, 0x00, 0x00, 0x00,
    ]
}

/// HTTP GET request packet.
fn create_http_get_packet() -> Vec<u8> {
    let payload = b"GET / HTTP/1.1\r\nHost: example.com\r\nUser-Agent: test\r\n\r\n";
    let total_len = (20 + 20 + payload.len()) as u16;
    let mut packet = vec![
        0x45,
        0x00,
        (total_len >> 8) as u8,
        (total_len & 0xFF) as u8,
        0x00,
        0x01,
        0x00,
        0x00,
        0x40,
        0x06,
        0x00,
        0x00,
        0xC0,
        0xA8,
        0x01,
        0x01,
        0xC0,
        0xA8,
        0x01,
        0x02,
        0x04,
        0xD2,
        0x00,
        0x50,
        0x00,
        0x00,
        0x00,
        0x01,
        0x00,
        0x00,
        0x00,
        0x00,
        0x50,
        0x18,
        0xFF,
        0xFF,
        0x00,
        0x00,
        0x00,
        0x00,
    ];
    packet.extend_from_slice(payload);
    packet
}

/// TLS ClientHello packet with SNI "example.com".
fn create_tls_client_hello_packet() -> Vec<u8> {
    let tls_payload = vec![
        0x16, 0x03, 0x01, 0x00, 0x43, // TLS record: Handshake, version 3.1, length 67
        0x01, // Handshake type: ClientHello
        0x00, 0x00, 0x3F, // Length (63)
        0x03, 0x03, // Client Version: TLS 1.2
        0x00, 0x00, 0x00, 0x00, 0x00, 0x00, 0x00, 0x00, 0x00, 0x00, 0x00, 0x00, 0x00, 0x00,
        0x00, 0x00, 0x00, 0x00, 0x00, 0x00, 0x00, 0x00, 0x00, 0x00, 0x00, 0x00, 0x00, 0x00,
        0x00, 0x00, 0x00, 0x00, // Random (32 bytes)
        0x00, // Session ID Length: 0
        0x00, 0x02, // Cipher Suites Length
        0x00, 0xFF, // Cipher Suite
        0x01, 0x00, // Compression Methods
        0x00, 0x14, // Extensions Length (20)
        0x00, 0x00, // Extension Type: SNI
        0x00, 0x10, // Extension Length: 16
        0x00, 0x0E, // Server Name List Length: 14 (= name_len + 3)
        0x00, // Server Name Type: hostname
        0x00, 0x0B, // Server Name Length: 11
        b'e', b'x', b'a', b'm', b'p', b'l', b'e', b'.', b'c', b'o', b'm',
    ];
    let total_len = (20 + 20 + tls_payload.len()) as u16;
    let mut packet = vec![
        0x45,
        0x00,
        (total_len >> 8) as u8,
        (total_len & 0xFF) as u8,
        0x00,
        0x01,
        0x00,
        0x00,
        0x40,
        0x06,
        0x00,
        0x00,
        0xC0,
        0xA8,
        0x01,
        0x01,
        0xC0,
        0xA8,
        0x01,
        0x02,
        0x04,
        0xD2,
        0x01,
        0xBB,
        0x00,
        0x00,
        0x00,
        0x01,
        0x00,
        0x00,
        0x00,
        0x00,
        0x50,
        0x18,
        0xFF,
        0xFF,
        0x00,
        0x00,
        0x00,
        0x00,
    ];
    packet.extend_from_slice(&tls_payload);
    packet
}

#[test]
fn test_packet_parse() {
    let data = create_test_tcp_packet();
    let packet = Packet::from_bytes(&data, Direction::Outbound).unwrap();

    assert!(packet.is_tcp());
    assert!(packet.is_ipv4());
    assert_eq!(packet.src_port, 80);
    assert_eq!(packet.dst_port, 443);
    assert_eq!(packet.ttl, 64);
}

#[test]
fn test_tcp_flags() {
    let data = create_test_tcp_packet();
    let packet = Packet::from_bytes(&data, Direction::Outbound).unwrap();

    let flags = packet.tcp_flags.unwrap();
    assert!(flags.ack);
    assert!(flags.psh);
    assert!(!flags.syn);
}

#[test]
fn test_packet_too_small() {
    let data = vec![0x45, 0x00];
    let result = Packet::from_bytes(&data, Direction::Outbound);
    assert!(matches!(result, Err(Error::PacketTooSmall { .. })));
}

#[test]
fn test_parse_tcp_syn() {
    let data = create_tcp_syn_packet();
    let packet = Packet::from_bytes(&data, Direction::Outbound).unwrap();

    assert!(packet.is_tcp());
    assert!(packet.is_outbound());
    assert_eq!(packet.src_port, 1234);
    assert_eq!(packet.dst_port, 80);
}

#[test]
fn test_parse_http_request() {
    let data = create_http_get_packet();
    let packet = Packet::from_bytes(&data, Direction::Outbound).unwrap();

    assert!(packet.is_tcp());
    assert!(packet.is_http_request());
    assert_eq!(packet.dst_port, 80);
    assert!(packet.payload_len() > 0);
}

#[test]
fn test_parse_tls_client_hello() {
    let data = create_tls_client_hello_packet();
    let packet = Packet::from_bytes(&data, Direction::Outbound).unwrap();

    assert!(packet.is_tcp());
    assert!(packet.is_tls_client_hello());
    assert_eq!(packet.dst_port, 443);
}

#[test]
fn test_extract_http_host() {
    let data = create_http_get_packet();
    let packet = Packet::from_bytes(&data, Direction::Outbound).unwrap();

    let host = packet.extract_http_host();
    assert!(host.is_some());
    assert_eq!(host.unwrap(), "example.com");
}

#[test]
fn test_extract_sni() {
    let data = create_tls_client_hello_packet();
    let packet = Packet::from_bytes(&data, Direction::Outbound).unwrap();

    let sni = packet.extract_sni();
    assert!(sni.is_some());
    assert_eq!(sni.unwrap(), "example.com");
}

#[test]
fn test_packet_builder() {
    let packet = PacketBuilder::tcp_v4()
        .src_ip_v4([10, 0, 0, 1])
        .dst_ip_v4([10, 0, 0, 2])
        .src_port(54321)
        .dst_port(443)
        .ttl(128)
        .flags(TcpFlags { syn: true, ..Default::default() })
        .build();

    // Verify IPv4
    assert_eq!(packet[0] >> 4, 4);
    // Verify protocol (TCP = 6)
    assert_eq!(packet[9], 6);
    // Verify TTL
    assert_eq!(packet[8], 128);
}

#[test]
fn packet_tests_test_tcp_flags() {
    // SYN only
    let syn = TcpFlags::from_byte(0x02);
    assert!(syn.syn);
    assert!(!syn.ack);

    // SYN-ACK
    let syn_ack = TcpFlags::from_byte(0x12);
    assert!(syn_ack.syn);
    assert!(syn_ack.ack);

    // FIN-ACK
    let fin_ack = TcpFlags::from_byte(0x11);
    assert!(fin_ack.fin);
    assert!(fin_ack.ack);

    // RST
    let rst = TcpFlags::from_byte(0x04);
    assert!(rst.rst);
}

#[test]
fn test_protocol_detection() {
    assert_eq!(Protocol::from_u8(6), Protocol::Tcp);
    assert_eq!(Protocol::from_u8(17), Protocol::Udp);
    assert_eq!(Protocol::from_u8(1), Protocol::Icmp);
    assert_eq!(Protocol::from_u8(58), Protocol::Icmpv6);
    assert_eq!(Protocol::from_u8(0), Protocol::Unknown);
}

#[test]
fn test_build_tcp_packet() {
    let packet = PacketBuilder::tcp_v4()
        .src_ip_v4([192, 168, 1, 1])
        .dst_ip_v4([192, 168, 1, 2])
        .src_port(12345)
        .dst_port(80)
        .ttl(64)
        .flags(TcpFlags { ack: true, psh: true, ..Default::default() })
        .payload(b"GET / HTTP/1.1\r\n")
        .build();

    assert_eq!(packet[0] >> 4, 4); // IPv4
    assert_eq!(packet[9], 6); // TCP
    assert_eq!(packet.len(), 20 + 20 + 16); // IP + TCP + payload
}

#[test]
fn test_parse_roundtrip() {
    // Parsing the serialised bytes of a parsed packet reproduces it.
    let data = create_tls_client_hello_packet();
    let first = Packet::from_bytes(&data, Direction::Outbound).unwrap();
    let reparsed = Packet::from_bytes(&first.as_bytes().to_vec(), Direction::Outbound).unwrap();

    assert_eq!(first.as_bytes(), reparsed.as_bytes());
    assert_eq!(first.src_addr, reparsed.src_addr);
    assert_eq!(first.dst_addr, reparsed.dst_addr);
    assert_eq!(first.src_port, reparsed.src_port);
    assert_eq!(first.dst_port, reparsed.dst_port);
    assert_eq!(first.ttl, reparsed.ttl);
    assert_eq!(first.ip_id, reparsed.ip_id);
    assert_eq!(first.tcp_flags, reparsed.tcp_flags);
    assert_eq!(first.ip_header_len, reparsed.ip_header_len);
    assert_eq!(first.transport_header_len, reparsed.transport_header_len);
    assert_eq!(first.protocol, reparsed.protocol);
    assert_eq!(first.ip_version, reparsed.ip_version);
}

#[test]
fn test_split_correctness() {
    // Split at offset 10: payloads partition, the second fragment's
    // sequence number advances by 10, both length fields are updated.
    let data = create_http_get_packet();
    let packet = Packet::from_bytes(&data, Direction::Outbound).unwrap();
    let payload_before = packet.payload().to_vec();
    let seq_before = packet.tcp_seq().unwrap();

    let (first, second) = packet.split_at_payload(10).unwrap();
    assert_eq!(first.payload(), &payload_before[..10]);
    assert_eq!(second.payload(), &payload_before[10..]);
    assert_eq!(first.tcp_seq().unwrap(), seq_before);
    assert_eq!(second.tcp_seq().unwrap(), seq_before.wrapping_add(10));
    // v4 total-length fields match the buffers.
    assert_eq!(
        ((first.as_bytes()[2] as usize) << 8) | first.as_bytes()[3] as usize,
        first.len()
    );
    assert_eq!(
        ((second.as_bytes()[2] as usize) << 8) | second.as_bytes()[3] as usize,
        second.len()
    );
    // Combined payload bytes equal the original's.
    assert_eq!(first.payload_len() + second.payload_len(), payload_before.len());
}

#[test]
fn test_split_out_of_range() {
    let data = create_http_get_packet();
    let packet = Packet::from_bytes(&data, Direction::Outbound).unwrap();
    assert!(matches!(
        packet.split_at_payload(0),
        Err(Error::SplitOutOfRange { .. })
    ));
    let too_far = packet.payload_len();
    assert!(matches!(
        packet.split_at_payload(too_far),
        Err(Error::SplitOutOfRange { .. })
    ));
}

#[test]
fn test_unsupported_version() {
    let mut data = create_test_tcp_packet();
    data[0] = 0x75; // version nibble 7
    let result = Packet::from_bytes(&data, Direction::Outbound);
    assert!(matches!(result, Err(Error::UnsupportedVersion { version: 7 })));
}

#[test]
fn test_set_ttl() {
    let data = create_test_tcp_packet();
    let mut packet = Packet::from_bytes(&data, Direction::Outbound).unwrap();
    packet.set_ttl(7);
    assert_eq!(packet.ttl, 7);
    assert_eq!(packet.as_bytes()[8], 7);
}

#[test]
fn test_set_tcp_seq_and_ack() {
    let data = create_test_tcp_packet();
    let mut packet = Packet::from_bytes(&data, Direction::Outbound).unwrap();
    packet.set_tcp_seq(0xDEAD_BEEF);
    packet.set_tcp_ack(0x0102_0304);
    assert_eq!(packet.tcp_seq(), Some(0xDEAD_BEEF));
    assert_eq!(packet.tcp_ack_num(), Some(0x0102_0304));
}

#[test]
fn test_with_new_payload() {
    let data = create_http_get_packet();
    let packet = Packet::from_bytes(&data, Direction::Outbound).unwrap();
    let replaced = packet.with_new_payload(b"xyz").unwrap();
    assert_eq!(replaced.payload(), b"xyz");
    assert_eq!(replaced.len(), 40 + 3);
    // total length rewritten
    assert_eq!(
        ((replaced.as_bytes()[2] as usize) << 8) | replaced.as_bytes()[3] as usize,
        43
    );
    // TCP checksum zeroed
    assert_eq!(replaced.as_bytes()[36], 0);
    assert_eq!(replaced.as_bytes()[37], 0);
}

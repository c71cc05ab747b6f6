//! Tests for the capture abstraction, the filter-expression builder
//! and the small host-and-port helper.

use gdpi_core::capture::PacketAddress;
use gdpi_core::capture_filter::{FilterBuilder, FilterPresets};
use gdpi_core::error::Error;
use gdpi_core::util::extract_host_port;

#[test]
fn test_packet_address_outbound() {
    let addr = PacketAddress::outbound();
    assert!(addr.outbound);
    assert!(!addr.loopback);
}

#[test]
fn test_packet_address_impostor() {
    let addr = PacketAddress::outbound().as_impostor();
    assert!(addr.outbound);
    assert!(addr.impostor);
}

#[test]
fn test_packet_address_recalc() {
    let addr = PacketAddress::outbound().recalculate_checksums();
    assert!(!addr.ip_checksum);
    assert!(!addr.tcp_checksum);
    assert!(!addr.udp_checksum);
}

#[test]
fn test_basic_filter() {
    let filter = FilterBuilder::new().outbound().tcp().build();

    assert_eq!(filter, "outbound and tcp");
}

#[test]
fn test_port_filter() {
    let filter = FilterBuilder::new().outbound().tcp().dst_port(443).build();

    assert_eq!(filter, "outbound and tcp and tcp.DstPort == 443");
}

#[test]
fn test_or_filter() {
    let filter = FilterBuilder::new()
        .outbound()
        .tcp()
        .group_start()
        .dst_port(80)
        .or()
        .dst_port(443)
        .group_end()
        .build();

    assert_eq!(filter, "outbound and tcp and (tcp.DstPort == 80 or tcp.DstPort == 443)");
}

#[test]
fn test_presets() {
    let http = FilterPresets::http_outbound();
    assert!(http.contains("tcp.DstPort == 80"));

    let https = FilterPresets::https_outbound();
    assert!(https.contains("tcp.DstPort == 443"));

    let dns = FilterPresets::dns_outbound();
    assert!(dns.contains("udp.DstPort == 53"));
}

#[test]
fn test_more_presets() {
    assert_eq!(
        FilterPresets::syn_ack_inbound(),
        "inbound and tcp and tcp.Syn and tcp.Ack"
    );
    assert_eq!(FilterPresets::quic_outbound(), "outbound and udp and udp.DstPort == 443");
    assert_eq!(
        FilterPresets::goodbyedpi_basic(),
        "outbound and tcp and (tcp.DstPort == 80 or tcp.DstPort == 443)"
    );
    assert!(FilterPresets::goodbyedpi_full().contains("udp.DstPort == 53"));
    assert!(FilterPresets::turkey_optimized().contains("udp.DstPort == 443"));
    assert!(FilterPresets::https_client_hello().contains("tcp.PayloadLength > 0"));
}

#[test]
fn test_extract_host_port() {
    assert_eq!(extract_host_port("https://example.com").unwrap(), "example.com:443");
    assert_eq!(extract_host_port("http://example.com:8080").unwrap(), "example.com:8080");
    assert_eq!(extract_host_port("example.com/path").unwrap(), "example.com:443");
}

#[test]
fn test_error_display() {
    let err = Error::packet_parse("Invalid header");
    assert!(err.message().contains("Invalid header"));

    let err = Error::strategy("fragmentation", "Buffer too small");
    assert!(err.message().contains("fragmentation"));
    assert!(err.message().contains("Buffer too small"));
}

#[test]
fn test_error_with_offset() {
    let err = Error::packet_parse_at("Invalid byte", 42);
    match err {
        Error::PacketParse { offset, .. } => assert_eq!(offset, Some(42)),
        _ => panic!("Wrong error type"),
    }
}

#[test]
fn test_error_messages_carry_numbers() {
    let err = Error::PacketTooSmall { expected: 20, actual: 2 };
    let text = err.message();
    assert!(text.contains("20"));
    assert!(text.contains("2"));

    let err = Error::InvalidPort { port: 0 };
    assert!(err.message().contains("0"));
}

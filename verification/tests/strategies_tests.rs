//! Tests for the bypass strategies and their configuration.

use gdpi_core::addr::Ipv4Address;
use gdpi_core::config::{
    AutoTtlConfig, Config, FakePacketConfig, FragmentationConfig, HeaderMangleConfig,
    PassiveDpiConfig, QuicBlockConfig, StrategiesConfig,
};
use gdpi_core::dns_redirect::DnsRedirectStrategy;
use gdpi_core::fake_packet::FakePacketStrategy;
use gdpi_core::fragment::FragmentationStrategy;
use gdpi_core::header_mangle::HeaderMangleStrategy;
use gdpi_core::packet::Packet;
use gdpi_core::quic_block::QuicBlockStrategy;
use gdpi_core::strategy::StrategyBuilder;
use gdpi_core::types::Direction;

fn create_mock_packet(dst_port: u16) -> Packet {
    // Minimal TCP packet for testing
    let data = vec![
        // IPv4 header (20 bytes)
        0x45,
        0x00,
        0x00,
        0x32,
        0x00,
        0x01,
        0x00,
        0x00,
        0x40,
        0x06,
        0x00,
        0x00,
        0xC0,
        0xA8,
        0x01,
        0x01,
        0xC0,
        0xA8,
        0x01,
        0x02,
        // TCP header (20 bytes)
        0x00,
        0x50, // src port
        (dst_port >> 8) as u8,
        (dst_port & 0xFF) as u8, // dst port
        0x00,
        0x00,
        0x00,
        0x01,
        0x00,
        0x00,
        0x00,
        0x01,
        0x50,
        0x18,
        0x00,
        0x00,
        0x00,
        0x00,
        0x00,
        0x00,
        // Payload
        b'G',
        b'E',
        b'T',
        b' ',
        b'/',
        b' ',
        b'H',
        b'T',
        b'T',
        b'P',
    ];

    Packet::from_bytes(&data, Direction::Outbound).unwrap()
}

#[test]
fn test_fragmentation_config() {
    let config = FragmentationConfig {
        enabled: true,
        http_size: 4,
        https_size: 8,
        native_split: true,
        reverse_order: false,
        by_sni: false,
        http_persistent: true,
        persistent_nowait: true,
    };

    let strategy = FragmentationStrategy::from_config(&config);
    assert_eq!(strategy.http_size, 4);
    assert_eq!(strategy.https_size, 8);
    assert!(!strategy.reverse_order);
}

#[test]
fn strategies_tests_test_fragmentation_config() {
    let config = FragmentationConfig {
        enabled: true,
        http_size: 4,
        https_size: 8,
        native_split: true,
        reverse_order: true,
        by_sni: false,
        http_persistent: true,
        persistent_nowait: true,
    };

    assert!(config.enabled);
    assert_eq!(config.http_size, 4);
    assert_eq!(config.https_size, 8);
    assert!(config.reverse_order);
}

#[test]
fn test_fragment_size_selection() {
    let strategy = FragmentationStrategy::new();

    // HTTP packet (port 80)
    let http_packet = create_mock_packet(80);
    assert_eq!(strategy.get_fragment_size(&http_packet), 2);

    // HTTPS packet (port 443)
    let https_packet = create_mock_packet(443);
    assert_eq!(strategy.get_fragment_size(&https_packet), 2);
}

#[test]
fn test_fake_packet_config() {
    let config = FakePacketConfig {
        enabled: true,
        wrong_checksum: true,
        wrong_seq: true,
        ttl: Some(8),
        auto_ttl: None,
        min_ttl_hops: Some(3),
        custom_payloads: Vec::new(),
        fake_sni_domains: Vec::new(),
        random_count: None,
        resend_count: 2,
    };

    assert!(config.enabled);
    assert!(config.wrong_checksum);
    assert!(config.wrong_seq);
    assert_eq!(config.ttl, Some(8));
    assert_eq!(config.resend_count, 2);
}

#[test]
fn test_auto_ttl_config() {
    let config = AutoTtlConfig { a1: 1, a2: 4, max: 10 };

    assert_eq!(config.a1, 1);
    assert_eq!(config.a2, 4);
    assert_eq!(config.max, 10);
}

#[test]
fn test_header_mangle_config() {
    let config = HeaderMangleConfig {
        enabled: true,
        host_replace: true,
        host_remove_space: true,
        host_mix_case: false,
        additional_space: false,
    };

    assert!(config.enabled);
    assert!(config.host_replace);
    assert!(config.host_remove_space);
    assert!(!config.host_mix_case);
}

#[test]
fn test_quic_block_config() {
    let config = QuicBlockConfig { enabled: true };

    assert!(config.enabled);
}

#[test]
fn test_passive_dpi_config() {
    let config = PassiveDpiConfig { enabled: true, ip_ids: vec![0x0100, 0x0200] };

    assert!(config.enabled);
    assert_eq!(config.ip_ids.len(), 2);
}

#[test]
fn test_strategies_config_default() {
    let config = StrategiesConfig::default();

    // By default, fragmentation should be enabled
    assert!(config.fragmentation.enabled);
}

#[test]
fn test_mode_specific_strategies() {
    // The minimal mode
    let mode4 = Config::from_legacy_mode(4).unwrap();
    assert!(!mode4.strategies.fragmentation.enabled);
    assert!(!mode4.strategies.fake_packet.enabled);

    // The full mode
    let mode9 = Config::from_legacy_mode(9).unwrap();
    assert!(mode9.strategies.fragmentation.enabled);
    assert!(mode9.strategies.fake_packet.enabled);
    assert!(mode9.strategies.quic_block.enabled);
}

#[test]
fn test_auto_ttl_calculation() {
    let strategy = FakePacketStrategy {
        wrong_checksum: false,
        wrong_seq: false,
        ttl: None,
        auto_ttl: Some(AutoTtlConfig { a1: 1, a2: 4, max: 10 }),
        min_ttl_hops: Some(3),
        resend_count: 1,
    };

    // A TTL indicating about ten hops
    let config = strategy.auto_ttl.as_ref().unwrap();
    let result = strategy.auto_ttl_calculate(118, config);
    assert!(result.is_some());
    let ttl = result.unwrap();
    assert!(ttl > 0 && ttl <= 10);
}

#[test]
fn fake_packet_test_auto_ttl_calculation() {
    let strategy = FakePacketStrategy {
        wrong_checksum: false,
        wrong_seq: false,
        ttl: None,
        auto_ttl: Some(AutoTtlConfig { a1: 1, a2: 4, max: 10 }),
        min_ttl_hops: Some(3),
        resend_count: 1,
    };

    let config = strategy.auto_ttl.as_ref().unwrap();
    let result = strategy.auto_ttl_calculate(118, config);
    assert!(result.is_some());
    let ttl = result.unwrap();
    assert!(ttl > 0 && ttl <= 10);
}

#[test]
fn test_min_hops_filter() {
    let strategy = FakePacketStrategy {
        wrong_checksum: false,
        wrong_seq: false,
        ttl: None,
        auto_ttl: Some(AutoTtlConfig::default()),
        min_ttl_hops: Some(5),
        resend_count: 1,
    };

    // A TTL of 126 means only two hops, below the minimum
    let config = strategy.auto_ttl.as_ref().unwrap();
    let result = strategy.auto_ttl_calculate(126, config);
    assert!(result.is_none());
}

#[test]
fn fake_packet_test_min_hops_filter() {
    let strategy = FakePacketStrategy {
        wrong_checksum: false,
        wrong_seq: false,
        ttl: None,
        auto_ttl: Some(AutoTtlConfig::default()),
        min_ttl_hops: Some(5),
        resend_count: 1,
    };

    let config = strategy.auto_ttl.as_ref().unwrap();
    let result = strategy.auto_ttl_calculate(126, config);
    assert!(result.is_none());
}

#[test]
fn test_host_header_replacement() {
    let mut payload = b"GET / HTTP/1.1\r\nHost: example.com\r\n\r\n".to_vec();
    let strategy = HeaderMangleStrategy::new();

    let result = strategy.replace_host_header(&mut payload);
    assert!(result);
    assert!(payload.windows(6).any(|w| w == b"\r\nhoSt"));
}

#[test]
fn test_mix_case_hostname() {
    let mut hostname = b"example.com".to_vec();
    let strategy = HeaderMangleStrategy::new();

    strategy.mix_case_hostname(&mut hostname);

    // Odd-indexed lowercase letters are uppercased
    assert_eq!(hostname.as_slice(), b"eXaMpLe.CoM");
}

#[test]
fn test_find_method_end() {
    let strategy = HeaderMangleStrategy::new();

    assert_eq!(strategy.find_method_end(b"GET /path HTTP/1.1"), Some(3));
    assert_eq!(strategy.find_method_end(b"POST /path HTTP/1.1"), Some(4));
    assert_eq!(strategy.find_method_end(b"INVALID"), None);
}

#[test]
fn test_quic_detection() {
    let _strategy = QuicBlockStrategy::new();

    // A QUIC Initial packet header
    let mut quic_payload = vec![0xC0]; // Form bit + Long header
    quic_payload.extend_from_slice(&[0x00, 0x00, 0x00, 0x01]); // Version 1
    // Pad to minimum size
    quic_payload.resize(1200, 0);

    // This test validates the detection shape
    assert!(quic_payload[0] >= 0xC0); // QUIC long header
}

#[test]
fn test_dns_query_detection() {
    let strategy = DnsRedirectStrategy::yandex();

    // Valid DNS query header
    let query = [
        0x12, 0x34, // Transaction ID
        0x01, 0x00, // Flags: standard query, recursion desired
        0x00, 0x01, // Questions: 1
        0x00, 0x00, // Answer RRs: 0
        0x00, 0x00, // Authority RRs: 0
        0x00, 0x00, // Additional RRs: 0
    ];

    assert!(strategy.is_dns_query(&query));
}

#[test]
fn test_dns_response_not_query() {
    let strategy = DnsRedirectStrategy::yandex();

    // DNS response header (QR bit set)
    let response = [
        0x12, 0x34, // Transaction ID
        0x81, 0x80, // Flags: response
        0x00, 0x01, // Questions: 1
        0x00, 0x01, // Answer RRs: 1
        0x00, 0x00, // Authority RRs: 0
        0x00, 0x00, // Additional RRs: 0
    ];

    assert!(!strategy.is_dns_query(&response));
}

#[test]
fn test_predefined_servers() {
    let yandex = DnsRedirectStrategy::yandex();
    assert_eq!(yandex.upstream_addr, Ipv4Address::new(77, 88, 8, 8));

    let cloudflare = DnsRedirectStrategy::cloudflare();
    assert_eq!(cloudflare.upstream_addr, Ipv4Address::new(1, 1, 1, 1));

    let google = DnsRedirectStrategy::google();
    assert_eq!(google.upstream_addr, Ipv4Address::new(8, 8, 8, 8));
}

#[test]
fn test_strategy_builder() {
    let config = gdpi_core::profile::Profile::Mode9.into_config();
    let strategies = StrategyBuilder::from_config(&config);

    // The full mode has fragmentation, decoys and QUIC blocking
    assert!(!strategies.is_empty());

    let names: Vec<_> = strategies.iter().map(|s| s.name()).collect();
    assert!(names.contains(&"fragmentation"));
    assert!(names.contains(&"fake_packet"));
    assert!(names.contains(&"quic_block"));
}

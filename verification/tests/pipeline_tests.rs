//! End-to-end tests of the pipeline and the concrete bypass scenarios.

use gdpi_core::addr::{IpAddress, Ipv4Address};
use gdpi_core::config::{AutoTtlConfig, Config};
use gdpi_core::context::Context;
use gdpi_core::dns_redirect::DnsRedirectStrategy;
use gdpi_core::fake_packet::FakePacketStrategy;
use gdpi_core::filter::{DomainFilter, FilterMode};
use gdpi_core::fragment::FragmentationStrategy;
use gdpi_core::packet::Packet;
use gdpi_core::pipeline::Pipeline;
use gdpi_core::quic_block::QuicBlockStrategy;
use gdpi_core::strategy::{Strategy, StrategyAction, StrategyBuilder};
use gdpi_core::types::Direction;

/// Build a raw IPv4 TCP packet.
fn build_tcp_v4(
    src_ip: [u8; 4],
    dst_ip: [u8; 4],
    src_port: u16,
    dst_port: u16,
    seq: u32,
    ack: u32,
    flags: u8,
    payload: &[u8],
) -> Vec<u8> {
    let total_len = (40 + payload.len()) as u16;
    let mut p = vec![
        0x45,
        0x00,
        (total_len >> 8) as u8,
        (total_len & 0xFF) as u8,
        0x00,
        0x01,
        0x00,
        0x00,
        0x40,
        0x06,
        0x00,
        0x00,
    ];
    p.extend_from_slice(&src_ip);
    p.extend_from_slice(&dst_ip);
    p.extend_from_slice(&src_port.to_be_bytes());
    p.extend_from_slice(&dst_port.to_be_bytes());
    p.extend_from_slice(&seq.to_be_bytes());
    p.extend_from_slice(&ack.to_be_bytes());
    p.push(0x50);
    p.push(flags);
    p.extend_from_slice(&[0xFF, 0xFF, 0x00, 0x00, 0x00, 0x00]);
    p.extend_from_slice(payload);
    p
}

/// Build a raw IPv4 UDP packet.
fn build_udp_v4(
    src_ip: [u8; 4],
    dst_ip: [u8; 4],
    src_port: u16,
    dst_port: u16,
    payload: &[u8],
) -> Vec<u8> {
    let total_len = (28 + payload.len()) as u16;
    let udp_len = (8 + payload.len()) as u16;
    let mut p = vec![
        0x45,
        0x00,
        (total_len >> 8) as u8,
        (total_len & 0xFF) as u8,
        0x00,
        0x01,
        0x00,
        0x00,
        0x40,
        0x11,
        0x00,
        0x00,
    ];
    p.extend_from_slice(&src_ip);
    p.extend_from_slice(&dst_ip);
    p.extend_from_slice(&src_port.to_be_bytes());
    p.extend_from_slice(&dst_port.to_be_bytes());
    p.extend_from_slice(&udp_len.to_be_bytes());
    p.extend_from_slice(&[0x00, 0x00]);
    p.extend_from_slice(payload);
    p
}

/// A TLS ClientHello payload with the given server name, padded to
/// the requested total length.
fn client_hello_payload(sni: &str, total: usize) -> Vec<u8> {
    let sni_bytes = sni.as_bytes();
    let name_len = sni_bytes.len() as u16;
    let mut p = vec![0x16, 0x03, 0x01, 0x02, 0x00, 0x01, 0x00, 0x01, 0xfc, 0x03, 0x03];
    // padding up to a plausible extension area
    p.resize(43, 0);
    // server-name extension with consistent lengths
    p.extend_from_slice(&[0x00, 0x00]);
    p.extend_from_slice(&(name_len + 5).to_be_bytes());
    p.extend_from_slice(&(name_len + 3).to_be_bytes());
    p.push(0x00);
    p.extend_from_slice(&name_len.to_be_bytes());
    p.extend_from_slice(sni_bytes);
    assert!(p.len() <= total);
    p.resize(total, 0);
    p
}

/// A minimal DNS query payload.
fn dns_query_payload() -> Vec<u8> {
    let mut p = vec![
        0x12, 0x34, // ID
        0x01, 0x00, // flags: standard query
        0x00, 0x01, // 1 question
        0x00, 0x00, // 0 answers
        0x00, 0x00, 0x00, 0x00,
    ];
    // question: example.com A IN
    p.extend_from_slice(b"\x07example\x03com\x00");
    p.extend_from_slice(&[0x00, 0x01, 0x00, 0x01]);
    p
}

#[test]
fn test_empty_pipeline() {
    let pipeline = Pipeline::new();
    let mut ctx = Context::new();
    let data = build_tcp_v4([192, 168, 1, 1], [192, 168, 1, 2], 1234, 80, 1, 1, 0x18, b"GET / HTTP");
    let packet = Packet::from_bytes(&data, Direction::Outbound).unwrap();

    let result = pipeline.process(packet, &mut ctx).unwrap();
    assert_eq!(result.len(), 1);
}

#[test]
fn test_drop_strategy() {
    // A pipeline whose only strategy drops the packet yields nothing.
    let mut pipeline = Pipeline::new();
    pipeline.add_strategy(Strategy::QuicBlock(QuicBlockStrategy::new()));

    let mut ctx = Context::new();
    let mut quic = vec![0xC0, 0x00, 0x00, 0x00, 0x01];
    quic.resize(1200, 0);
    let data = build_udp_v4([192, 168, 1, 1], [192, 168, 1, 2], 5000, 443, &quic);
    let packet = Packet::from_bytes(&data, Direction::Outbound).unwrap();

    let result = pipeline.process(packet, &mut ctx).unwrap();
    assert!(result.is_empty());
}

#[test]
fn test_pass_strategy() {
    // A strategy that declines the packet leaves it alone.
    let mut pipeline = Pipeline::new();
    pipeline.add_strategy(Strategy::QuicBlock(QuicBlockStrategy::new()));

    let mut ctx = Context::new();
    let data = build_tcp_v4([192, 168, 1, 1], [192, 168, 1, 2], 1234, 80, 1, 1, 0x18, b"GET / HTTP");
    let packet = Packet::from_bytes(&data, Direction::Outbound).unwrap();

    let result = pipeline.process(packet, &mut ctx).unwrap();
    assert_eq!(result.len(), 1);
}

#[test]
fn test_strategy_ordering() {
    let mut pipeline = Pipeline::new();
    pipeline.add_strategy(Strategy::Fragmentation(FragmentationStrategy::new()));
    pipeline.add_strategy(Strategy::QuicBlock(QuicBlockStrategy::new()));

    assert_eq!(pipeline.len(), 2);
    // Sorted ascending by priority: QUIC blocking runs first.
    let names = pipeline.strategy_names();
    assert_eq!(names[0], "quic_block");
    assert_eq!(names[1], "fragmentation");
}

#[test]
fn test_pipeline_preserves_unmatched_packets() {
    // A packet no strategy takes comes back alone and byte-identical.
    let config = Config::from_legacy_mode(9).unwrap();
    let mut pipeline = Pipeline::new();
    pipeline.add_strategies(StrategyBuilder::from_config(&config));

    let mut ctx = Context::new();
    // An inbound packet matches no outbound strategy.
    let data = build_tcp_v4([192, 168, 1, 2], [192, 168, 1, 1], 443, 1234, 7, 3, 0x18, b"hello");
    let packet = Packet::from_bytes(&data, Direction::Inbound).unwrap();

    let result = pipeline.process(packet, &mut ctx).unwrap();
    assert_eq!(result.len(), 1);
    assert_eq!(result[0].as_bytes(), data.as_slice());
}

#[test]
fn test_scenario_tls_fragmentation_reverse() {
    // One outbound ClientHello of 517 bytes to port 443, fragmentation
    // at two bytes in reverse order: the tail goes first.
    let payload = client_hello_payload("example.com", 517);
    let data = build_tcp_v4([10, 0, 0, 1], [10, 0, 0, 2], 40000, 443, 1000, 0, 0x18, &payload);
    let packet = Packet::from_bytes(&data, Direction::Outbound).unwrap();
    assert!(packet.is_tls_client_hello());

    let mut config = Config::default();
    config.strategies.fragmentation.enabled = true;
    config.strategies.fragmentation.https_size = 2;
    config.strategies.fragmentation.reverse_order = true;
    config.strategies.fake_packet.enabled = false;
    config.strategies.quic_block.enabled = false;
    config.strategies.header_mangle.enabled = false;
    let mut pipeline = Pipeline::new();
    pipeline.add_strategies(StrategyBuilder::from_config(&config));

    let mut ctx = Context::new();
    let result = pipeline.process(packet, &mut ctx).unwrap();

    assert_eq!(result.len(), 2);
    let second = &result[0];
    let first = &result[1];
    assert_eq!(second.tcp_seq(), Some(1002));
    assert_eq!(second.payload(), &payload[2..]);
    assert_eq!(first.tcp_seq(), Some(1000));
    assert_eq!(first.payload(), &payload[..2]);
    // IP total length updated on both
    for frag in [first, second] {
        let total = ((frag.as_bytes()[2] as usize) << 8) | frag.as_bytes()[3] as usize;
        assert_eq!(total, frag.len());
    }
    assert_eq!(ctx.stats.packets_fragmented, 1);
}

#[test]
fn test_scenario_http_fake_injection() {
    // One outbound HTTP request; a single wrong-sequence decoy goes
    // ahead of it on the same 5-tuple.
    let payload = b"GET /\r\nHost: blocked.example\r\n\r\n";
    let data = build_tcp_v4(
        [10, 0, 0, 1],
        [203, 0, 113, 7],
        41000,
        80,
        123_456,
        654_321,
        0x18,
        payload,
    );
    let packet = Packet::from_bytes(&data, Direction::Outbound).unwrap();

    let strategy = FakePacketStrategy {
        wrong_checksum: false,
        wrong_seq: true,
        ttl: None,
        auto_ttl: None,
        min_ttl_hops: None,
        resend_count: 1,
    };
    let mut ctx = Context::new();
    assert!(strategy.should_apply(&packet, &ctx));
    let action = strategy.apply(packet, &mut ctx).unwrap();
    match action {
        StrategyAction::InjectBefore(decoys, original) => {
            assert_eq!(decoys.len(), 1);
            let decoy = &decoys[0];
            assert!(decoy.is_fake);
            assert_eq!(decoy.src_addr, original.src_addr);
            assert_eq!(decoy.dst_addr, original.dst_addr);
            assert_eq!(decoy.src_port, original.src_port);
            assert_eq!(decoy.dst_port, original.dst_port);
            assert_eq!(
                decoy.payload(),
                b"GET / HTTP/1.1\r\nHost: www.w3.org\r\nUser-Agent: curl/7.65.3\r\n\r\n"
            );
            assert_eq!(decoy.tcp_seq(), Some(123_456u32.wrapping_sub(10000)));
            assert_eq!(decoy.tcp_ack_num(), Some(654_321u32.wrapping_sub(66000)));
            assert_eq!(original.as_bytes(), data.as_slice());
        },
        _ => panic!("expected decoy injection"),
    }
    assert_eq!(ctx.stats.fake_packets_sent, 1);
}

#[test]
fn test_scenario_quic_initial_drop() {
    // An outbound QUIC Initial is swallowed and counted.
    let mut quic = vec![0xC0, 0x00, 0x00, 0x00, 0x01];
    quic.resize(1200, 0);
    let data = build_udp_v4([10, 0, 0, 1], [203, 0, 113, 7], 50000, 443, &quic);
    let packet = Packet::from_bytes(&data, Direction::Outbound).unwrap();

    let mut config = Config::default();
    config.strategies.fragmentation.enabled = false;
    config.strategies.fake_packet.enabled = false;
    config.strategies.quic_block.enabled = true;
    let mut pipeline = Pipeline::new();
    pipeline.add_strategies(StrategyBuilder::from_config(&config));

    let mut ctx = Context::new();
    let result = pipeline.process(packet, &mut ctx).unwrap();
    assert!(result.is_empty());
    assert_eq!(ctx.stats.quic_blocked, 1);
}

#[test]
fn test_scenario_dns_redirect_roundtrip() {
    // An outbound query is re-addressed to the alternate resolver and
    // remembered; the response is rewritten back and forgotten.
    let strategy = DnsRedirectStrategy::new(Ipv4Address::new(77, 88, 8, 8), 53);
    let mut ctx = Context::new();

    let query = dns_query_payload();
    let data = build_udp_v4([10, 0, 0, 1], [192, 0, 2, 53], 50000, 53, &query);
    let packet = Packet::from_bytes(&data, Direction::Outbound).unwrap();
    assert!(strategy.should_apply(&packet, &ctx));
    let action = strategy.apply(packet, &mut ctx).unwrap();
    match action {
        StrategyAction::Pass(p) => {
            assert_eq!(p.dst_addr, IpAddress::V4(Ipv4Address::new(77, 88, 8, 8)));
            assert_eq!(p.dst_port, 53);
            assert_eq!(p.payload(), query.as_slice());
        },
        _ => panic!("expected redirected pass"),
    }
    assert_eq!(ctx.stats.dns_redirected, 1);
    assert_eq!(
        ctx.dns_get_original(50000),
        Some((IpAddress::V4(Ipv4Address::new(192, 0, 2, 53)), 53))
    );

    // The response comes back from the alternate resolver.
    let mut response = dns_query_payload();
    response[2] = 0x81; // QR set
    let rdata = build_udp_v4([77, 88, 8, 8], [10, 0, 0, 1], 53, 50000, &response);
    let rpacket = Packet::from_bytes(&rdata, Direction::Inbound).unwrap();
    assert!(strategy.should_apply(&rpacket, &ctx));
    let raction = strategy.apply(rpacket, &mut ctx).unwrap();
    match raction {
        StrategyAction::Pass(p) => {
            assert_eq!(p.src_addr, IpAddress::V4(Ipv4Address::new(192, 0, 2, 53)));
            assert_eq!(p.src_port, 53);
        },
        _ => panic!("expected rewritten response"),
    }
    assert_eq!(ctx.dns_get_original(50000), None);
}

#[test]
fn test_scenario_whitelist_bypass() {
    // A whitelisted server name passes untouched through a pipeline
    // with fragmentation and decoys on.
    let payload = client_hello_payload("bank.example", 400);
    let data = build_tcp_v4([10, 0, 0, 1], [203, 0, 113, 9], 42000, 443, 5000, 0, 0x18, &payload);
    let packet = Packet::from_bytes(&data, Direction::Outbound).unwrap();
    assert_eq!(packet.extract_sni().unwrap(), "bank.example");

    let mut config = Config::default();
    config.strategies.fragmentation.enabled = true;
    config.strategies.fake_packet.enabled = true;
    config.strategies.quic_block.enabled = false;
    let mut pipeline = Pipeline::new();
    pipeline.add_strategies(StrategyBuilder::from_config(&config));

    let filter = DomainFilter::with_domains(
        FilterMode::Whitelist,
        vec!["*.bank.example".to_string()],
    );
    let mut ctx = Context::with_filter(filter);

    let result = pipeline.process(packet, &mut ctx).unwrap();
    assert_eq!(result.len(), 1);
    assert_eq!(result[0].as_bytes(), data.as_slice());
    assert_eq!(ctx.stats.packets_fragmented, 0);
    assert_eq!(ctx.stats.fake_packets_sent, 0);
}

#[test]
fn test_scenario_auto_ttl() {
    // With a recorded SYN-ACK TTL of 118, the decoy TTL comes out as
    // six: estimate 128, ten hops, less the second parameter.
    let mut ctx = Context::new();
    let server = IpAddress::V4(Ipv4Address::new(203, 0, 113, 10));
    let client = IpAddress::V4(Ipv4Address::new(10, 0, 0, 1));
    ctx.tcp_tracker.record(server, 443, client, 44000, 118, 0);

    let payload = client_hello_payload("example.com", 300);
    let data = build_tcp_v4(
        [10, 0, 0, 1],
        [203, 0, 113, 10],
        44000,
        443,
        1,
        0,
        0x18,
        &payload,
    );
    let packet = Packet::from_bytes(&data, Direction::Outbound).unwrap();

    let strategy = FakePacketStrategy {
        wrong_checksum: false,
        wrong_seq: false,
        ttl: None,
        auto_ttl: Some(AutoTtlConfig { a1: 1, a2: 4, max: 10 }),
        min_ttl_hops: Some(3),
        resend_count: 1,
    };
    let action = strategy.apply(packet, &mut ctx).unwrap();
    match action {
        StrategyAction::InjectBefore(decoys, _original) => {
            assert_eq!(decoys.len(), 1);
            assert_eq!(decoys[0].ttl, 6);
            assert!(decoys[0].is_fake);
        },
        _ => panic!("expected decoy injection"),
    }
}

#[test]
fn test_fake_packets_not_refragmented() {
    // Every emitted decoy is marked fake, and the fragmentation
    // strategy declines it.
    let payload = b"GET / HTTP/1.1\r\nHost: a.example\r\n\r\n";
    let data = build_tcp_v4([10, 0, 0, 1], [203, 0, 113, 7], 41000, 80, 10, 20, 0x18, payload);
    let packet = Packet::from_bytes(&data, Direction::Outbound).unwrap();

    let strategy = FakePacketStrategy::new();
    let frag = FragmentationStrategy::new();
    let mut ctx = Context::new();
    let action = strategy.apply(packet, &mut ctx).unwrap();
    match action {
        StrategyAction::InjectBefore(decoys, _original) => {
            assert!(!decoys.is_empty());
            for decoy in &decoys {
                assert!(decoy.is_fake);
                assert!(!frag.should_apply(decoy, &ctx));
            }
        },
        _ => panic!("expected decoy injection"),
    }
}

#[test]
fn test_dns_redirect_single_table_entry() {
    // Applying the redirect twice for the same client port leaves
    // exactly one table entry.
    let strategy = DnsRedirectStrategy::new(Ipv4Address::new(77, 88, 8, 8), 53);
    let mut ctx = Context::new();
    let query = dns_query_payload();

    for _ in 0..2 {
        let data = build_udp_v4([10, 0, 0, 1], [192, 0, 2, 53], 50000, 53, &query);
        let packet = Packet::from_bytes(&data, Direction::Outbound).unwrap();
        strategy.apply(packet, &mut ctx).unwrap();
    }
    assert_eq!(ctx.dns_tracker.len(), 1);
}

#[test]
fn test_header_mangle_in_pipeline() {
    // Host token replacement rewrites the header in place without
    // changing the packet length.
    let payload = b"GET / HTTP/1.1\r\nHost: example.com\r\n\r\n";
    let data = build_tcp_v4([10, 0, 0, 1], [203, 0, 113, 7], 41000, 80, 10, 20, 0x18, payload);
    let packet = Packet::from_bytes(&data, Direction::Outbound).unwrap();

    let mut config = Config::default();
    config.strategies.fragmentation.enabled = false;
    config.strategies.fake_packet.enabled = false;
    config.strategies.quic_block.enabled = false;
    config.strategies.header_mangle.enabled = true;
    config.strategies.header_mangle.host_replace = true;
    let mut pipeline = Pipeline::new();
    pipeline.add_strategies(StrategyBuilder::from_config(&config));

    let mut ctx = Context::new();
    let result = pipeline.process(packet, &mut ctx).unwrap();
    assert_eq!(result.len(), 1);
    assert_eq!(result[0].len(), data.len());
    let out = result[0].payload();
    assert!(out.windows(8).any(|w| w == b"\r\nhoSt: "));
    assert_eq!(ctx.stats.headers_modified, 1);
}

#[test]
fn test_passive_dpi_drops_marked_rst() {
    // An inbound RST with a configured IP identification is dropped.
    let data = build_tcp_v4([203, 0, 113, 7], [10, 0, 0, 1], 80, 41000, 0, 0, 0x04, b"");
    let mut with_id = data.clone();
    with_id[4] = 0x01;
    with_id[5] = 0x00;
    let packet = Packet::from_bytes(&with_id, Direction::Inbound).unwrap();

    let strategy = gdpi_core::passive_dpi::PassiveDpiStrategy::from_ids(vec![0x0100]);
    let ctx = Context::new();
    assert!(strategy.should_apply(&packet, &ctx));
    let mut ctx = ctx;
    let action = strategy.apply(packet, &mut ctx).unwrap();
    assert!(matches!(action, StrategyAction::Drop));
    assert_eq!(ctx.stats.packets_dropped, 1);
}

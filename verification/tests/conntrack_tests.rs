//! Tests for the connection-tracking tables.  Time is a parameter of
//! every operation, so expiry is tested with explicit clock readings.

use gdpi_core::addr::{IpAddress, Ipv4Address};
use gdpi_core::conntrack::{DnsConnTracker, TcpConnTracker};

fn v4(a: u8, b: u8, c: u8, d: u8) -> IpAddress {
    IpAddress::V4(Ipv4Address::new(a, b, c, d))
}

#[test]
fn test_tcp_tracker_basic() {
    let mut tracker = TcpConnTracker::new();

    let server = v4(93, 184, 216, 34);
    let client = v4(192, 168, 1, 100);

    // Record TTL from SYN-ACK
    tracker.record(server, 443, client, 54321, 52, 0);

    // Retrieve TTL
    let ttl = tracker.get_ttl(server, 443, client, 54321, 0);
    assert_eq!(ttl, Some(52));
}

#[test]
fn test_tcp_tracker_multiple_connections() {
    let mut tracker = TcpConnTracker::new();

    let first_server = v4(142, 250, 74, 46);
    let second_server = v4(104, 16, 132, 229);
    let client = v4(192, 168, 1, 100);

    // Record multiple connections
    tracker.record(first_server, 443, client, 50000, 55, 0);
    tracker.record(second_server, 443, client, 50001, 48, 0);
    tracker.record(first_server, 80, client, 50002, 55, 0);

    // Verify each connection has correct TTL
    assert_eq!(tracker.get_ttl(first_server, 443, client, 50000, 0), Some(55));
    assert_eq!(tracker.get_ttl(second_server, 443, client, 50001, 0), Some(48));
    assert_eq!(tracker.get_ttl(first_server, 80, client, 50002, 0), Some(55));

    // Non-existent connection
    assert_eq!(tracker.get_ttl(first_server, 443, client, 59999, 0), None);
}

#[test]
fn test_tcp_tracker_ipv6() {
    let mut tracker = TcpConnTracker::new();

    let server = IpAddress::V6(0x2606_4700_0000_0000_0000_0000_0000_6811);
    let client = IpAddress::V6(0x2001_0db8_0000_0000_0000_0000_0000_0001);

    tracker.record(server, 443, client, 12345, 64, 0);

    assert_eq!(tracker.get_ttl(server, 443, client, 12345, 0), Some(64));
}

#[test]
fn test_tcp_tracker_expiration() {
    let mut tracker = TcpConnTracker::with_timeout(50);

    let server = v4(1, 1, 1, 1);
    let client = v4(10, 0, 0, 1);

    tracker.record(server, 443, client, 11111, 50, 0);
    assert_eq!(tracker.get_ttl(server, 443, client, 11111, 0), Some(50));

    // After the timeout has elapsed the entry is gone
    assert_eq!(tracker.get_ttl(server, 443, client, 11111, 60), None);
}

#[test]
fn test_tcp_tracker_cleanup() {
    let mut tracker = TcpConnTracker::with_timeout(20);

    let server = v4(1, 2, 3, 4);
    let client = v4(10, 0, 0, 1);

    // Add multiple entries
    for port in 10000..10100 {
        tracker.record(server, 443, client, port, 64, 0);
    }

    assert_eq!(tracker.len(), 100);

    // Sweep after the timeout
    tracker.cleanup(30);

    assert_eq!(tracker.len(), 0);
}

#[test]
fn test_dns_tracker_basic() {
    let mut tracker = DnsConnTracker::new();

    let original_dns = v4(8, 8, 8, 8);

    // Track a DNS query
    tracker.track_query(12345, original_dns, 53, 0);

    // Get original destination
    let result = tracker.get_original(12345, 0);
    assert_eq!(result, Some((original_dns, 53)));
}

#[test]
fn test_dns_tracker_multiple_queries() {
    let mut tracker = DnsConnTracker::new();

    let first_dns = v4(8, 8, 8, 8);
    let second_dns = v4(1, 1, 1, 1);

    tracker.track_query(10001, first_dns, 53, 0);
    tracker.track_query(10002, second_dns, 53, 0);

    assert_eq!(tracker.get_original(10001, 0), Some((first_dns, 53)));
    assert_eq!(tracker.get_original(10002, 0), Some((second_dns, 53)));
}

#[test]
fn test_dns_tracker_remove() {
    let mut tracker = DnsConnTracker::new();
    let dns = v4(8, 8, 8, 8);

    tracker.track_query(12345, dns, 53, 0);
    assert_eq!(tracker.len(), 1);

    // Remove after response
    tracker.remove(12345);

    assert_eq!(tracker.len(), 0);
    assert_eq!(tracker.get_original(12345, 0), None);
}

#[test]
fn test_dns_tracker_expiration() {
    let mut tracker = DnsConnTracker::with_timeout(50);
    let dns = v4(8, 8, 8, 8);

    tracker.track_query(55555, dns, 53, 0);

    // After the timeout has elapsed the entry is gone
    assert_eq!(tracker.get_original(55555, 60), None);
}

#[test]
fn test_dns_tracker_high_volume() {
    let mut tracker = DnsConnTracker::new();
    let dns = v4(77, 88, 8, 8);

    // Many concurrent queries
    for port in 40000..41000 {
        tracker.track_query(port, dns, 53, 0);
    }

    assert_eq!(tracker.len(), 1000);

    // Verify lookups
    assert_eq!(tracker.get_original(40500, 0), Some((dns, 53)));
    assert_eq!(tracker.get_original(40999, 0), Some((dns, 53)));

    // Clear
    tracker.clear();
    assert!(tracker.is_empty());
}

#[test]
fn test_missing_entry() {
    let mut tracker = DnsConnTracker::new();

    let result = tracker.get_original(59999, 0);
    assert_eq!(result, None);
}

#[test]
fn test_hop_table_freshness() {
    // After a record at time t, a lookup before the timeout returns
    // the TTL; at or past the timeout it returns nothing.
    let mut tracker = TcpConnTracker::with_timeout(60000);
    let server = v4(203, 0, 113, 10);
    let client = v4(10, 0, 0, 1);

    tracker.record(server, 443, client, 44000, 118, 1000);
    assert_eq!(tracker.get_ttl(server, 443, client, 44000, 1000), Some(118));
    assert_eq!(tracker.get_ttl(server, 443, client, 44000, 60999), Some(118));
    assert_eq!(tracker.get_ttl(server, 443, client, 44000, 61000), None);
}

#[test]
fn test_dns_upsert_keeps_one_entry() {
    // Re-tracking the same source port replaces the entry instead of
    // adding a second one.
    let mut tracker = DnsConnTracker::new();
    let first = v4(192, 0, 2, 53);
    let second = v4(198, 51, 100, 1);

    tracker.track_query(50000, first, 53, 0);
    tracker.track_query(50000, second, 53, 1);

    assert_eq!(tracker.len(), 1);
    assert_eq!(tracker.get_original(50000, 1), Some((second, 53)));
}

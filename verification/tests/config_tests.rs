//! Tests for the configuration types and the preset profiles.

use gdpi_core::addr::Ipv4Address;
use gdpi_core::config::{Config, DnsConfig, GeneralConfig, PerformanceConfig};
use gdpi_core::profile::Profile;

#[test]
fn test_default_config() {
    let config = Config::default();
    assert!(!config.dns.enabled);
    assert!(config.strategies.fragmentation.enabled);
    assert_eq!(config.strategies.fragmentation.http_size, 2);
}

#[test]
fn test_default_general_config() {
    let config = GeneralConfig::default();
    assert_eq!(config.name, "default");
    assert_eq!(config.version, "2.0");
    assert!(!config.auto_start);
    assert!(!config.run_as_service);
}

#[test]
fn test_default_dns_config() {
    let config = DnsConfig::default();
    assert!(!config.enabled);
    assert_eq!(config.ipv4_port, Some(53));
    assert_eq!(config.ipv6_port, Some(53));
    assert!(config.flush_cache_on_start);
}

#[test]
fn test_default_performance_config() {
    let config = PerformanceConfig::default();
    assert_eq!(config.max_payload_size, 1200);
    assert_eq!(config.worker_threads, 0);
    assert_eq!(config.conntrack_max_entries, 10000);
    assert!(config.additional_ports.is_empty());
}

#[test]
fn test_config_validation() {
    let config = Config::default();
    assert!(config.validate().is_ok());
}

#[test]
fn test_config_validation_invalid_dns_port() {
    let mut config = Config::default();
    config.dns.enabled = true;
    config.dns.ipv4_port = Some(0);
    assert!(config.validate().is_err());
}

#[test]
fn test_config_validation_invalid_fragmentation_size() {
    let mut config = Config::default();
    config.strategies.fragmentation.enabled = true;
    // Both http_size and https_size are 0 - this should be invalid
    config.strategies.fragmentation.http_size = 0;
    config.strategies.fragmentation.https_size = 0;
    assert!(config.validate().is_err());

    // Only http_size is 0 but https_size is valid - this should be OK
    config.strategies.fragmentation.https_size = 40;
    assert!(config.validate().is_ok());
}

#[test]
fn test_config_validation_invalid_ttl() {
    let mut config = Config::default();
    config.strategies.fake_packet.ttl = Some(0);
    assert!(config.validate().is_err());
}

#[test]
fn test_config_validation_valid_ttl() {
    let mut config = Config::default();
    config.strategies.fake_packet.ttl = Some(64);
    assert!(config.validate().is_ok());
}

#[test]
fn test_legacy_mode() {
    let config = Config::from_legacy_mode(9).unwrap();
    assert!(config.strategies.fragmentation.enabled);
    assert!(config.strategies.quic_block.enabled);
}

#[test]
fn test_legacy_mode_all_modes() {
    for mode in 1..=9 {
        let result = Config::from_legacy_mode(mode);
        assert!(result.is_ok(), "Mode {} should be valid", mode);
    }
}

#[test]
fn test_legacy_mode_invalid() {
    assert!(Config::from_legacy_mode(0).is_err());
    assert!(Config::from_legacy_mode(10).is_err());
    assert!(Config::from_legacy_mode(255).is_err());
}

#[test]
fn test_legacy_mode1_most_compatible() {
    let config = Config::from_legacy_mode(1).unwrap();
    assert!(config.strategies.passive_dpi.enabled);
    assert!(config.strategies.header_mangle.enabled);
    assert!(config.strategies.fragmentation.enabled);
    assert!(!config.strategies.fake_packet.enabled);
    assert!(!config.strategies.quic_block.enabled);
}

#[test]
fn test_legacy_mode4_minimal() {
    let config = Config::from_legacy_mode(4).unwrap();
    assert!(config.strategies.passive_dpi.enabled);
    assert!(config.strategies.header_mangle.enabled);
    assert!(!config.strategies.fragmentation.enabled);
    assert!(!config.strategies.fake_packet.enabled);
}

#[test]
fn test_from_profile() {
    let config = Config::from_profile(Profile::Turkey);
    assert!(config.dns.enabled);
    assert_eq!(config.dns.ipv4_upstream, Some(Ipv4Address::new(77, 88, 8, 8)));
}

#[test]
fn test_from_profile_mode9() {
    let config = Config::from_profile(Profile::Mode9);
    assert!(config.strategies.fragmentation.enabled);
    assert!(config.strategies.fake_packet.enabled);
    assert!(config.strategies.quic_block.enabled);
}

#[test]
fn test_mode9_config() {
    let config = Profile::Mode9.into_config();
    assert!(config.strategies.fragmentation.enabled);
    assert!(config.strategies.fake_packet.enabled);
    assert!(config.strategies.quic_block.enabled);
    assert!(config.strategies.fake_packet.wrong_checksum);
    assert!(config.strategies.fake_packet.wrong_seq);
}

#[test]
fn test_turkey_profile() {
    let config = Profile::Turkey.into_config();
    assert!(config.dns.enabled);
    assert_eq!(config.dns.ipv4_upstream, Some(Ipv4Address::new(77, 88, 8, 8)));
}

#[test]
fn test_profile_parse() {
    assert_eq!("9".parse::<Profile>().unwrap(), Profile::Mode9);
    assert_eq!("turkey".parse::<Profile>().unwrap(), Profile::Turkey);
    assert!("invalid".parse::<Profile>().is_err());
}

#[test]
fn test_config_from_profile_mode1() {
    let config = Config::from_profile(Profile::Mode1);

    // The most compatible mode
    assert!(config.strategies.passive_dpi.enabled);
    assert!(config.strategies.header_mangle.enabled);
    assert!(config.strategies.fragmentation.enabled);
    assert_eq!(config.strategies.fragmentation.http_size, 2);
    assert_eq!(config.strategies.fragmentation.https_size, 2);
    assert!(!config.strategies.fake_packet.enabled);
    assert!(!config.strategies.quic_block.enabled);
}

#[test]
fn test_config_from_profile_mode9() {
    let config = Config::from_profile(Profile::Mode9);

    // The full default mode with QUIC blocking
    assert!(config.strategies.fragmentation.enabled);
    assert!(config.strategies.fake_packet.enabled);
    assert!(config.strategies.fake_packet.wrong_checksum);
    assert!(config.strategies.fake_packet.wrong_seq);
    assert!(config.strategies.quic_block.enabled);
}

#[test]
fn test_config_from_profile_turkey() {
    let config = Config::from_profile(Profile::Turkey);

    // The regional profile: the full mode plus DNS redirect
    assert!(config.dns.enabled);
    assert_eq!(config.dns.ipv4_upstream, Some(Ipv4Address::new(77, 88, 8, 8)));
    assert_eq!(config.dns.ipv4_port, Some(53));
    assert!(config.strategies.quic_block.enabled);
}

#[test]
fn test_all_profiles_valid() {
    let profiles = [
        Profile::Mode1,
        Profile::Mode2,
        Profile::Mode3,
        Profile::Mode4,
        Profile::Mode5,
        Profile::Mode6,
        Profile::Mode7,
        Profile::Mode8,
        Profile::Mode9,
        Profile::Turkey,
        Profile::Custom,
    ];

    for profile in profiles {
        let config = Config::from_profile(profile);
        // All configs should validate
        assert!(config.validate().is_ok(), "Profile {:?} failed validation", profile);
    }
}

#[test]
fn test_profile_parsing() {
    // Numeric modes
    assert_eq!("1".parse::<Profile>().unwrap(), Profile::Mode1);
    assert_eq!("9".parse::<Profile>().unwrap(), Profile::Mode9);

    // Named modes
    assert_eq!("mode1".parse::<Profile>().unwrap(), Profile::Mode1);
    assert_eq!("mode9".parse::<Profile>().unwrap(), Profile::Mode9);
    assert_eq!("default".parse::<Profile>().unwrap(), Profile::Mode9);

    // Regional profiles
    assert_eq!("turkey".parse::<Profile>().unwrap(), Profile::Turkey);
    assert_eq!("tr".parse::<Profile>().unwrap(), Profile::Turkey);

    // Invalid
    assert!("invalid".parse::<Profile>().is_err());
    assert!("10".parse::<Profile>().is_err());
}

#[test]
fn test_legacy_mode_conversion() {
    for mode in 1..=9 {
        let config = Config::from_legacy_mode(mode).expect("Valid mode should work");
        assert!(config.validate().is_ok());
    }

    // Invalid modes
    assert!(Config::from_legacy_mode(0).is_err());
    assert!(Config::from_legacy_mode(10).is_err());
}

#[test]
fn test_config_validation_errors() {
    // Invalid DNS port
    let mut config = Config::default();
    config.dns.enabled = true;
    config.dns.ipv4_port = Some(0);
    assert!(config.validate().is_err());

    // Invalid fragmentation size (both http and https are 0)
    let mut config = Config::default();
    config.strategies.fragmentation.enabled = true;
    config.strategies.fragmentation.http_size = 0;
    config.strategies.fragmentation.https_size = 0;
    assert!(config.validate().is_err());

    // Invalid TTL
    let mut config = Config::default();
    config.strategies.fake_packet.ttl = Some(0);
    assert!(config.validate().is_err());
}

#[test]
fn test_profile_names() {
    assert_eq!(Profile::Mode9.name(), "mode9");
    assert_eq!(Profile::Turkey.name(), "turkey");
    assert_eq!(Profile::from_name("mode5").unwrap(), Profile::Mode5);
    assert!(Profile::from_name("nonsense").is_err());
}

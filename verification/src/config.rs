//! The typed configuration surface of the engine: which strategies run
//! and with which parameters.  Loading and saving any serialised form
//! of this structure is the front end's concern.

use crate::addr::{IpAddress, Ipv4Address};
use crate::error::Error;
use vstd::prelude::*;
use vstd::string::*;

verus! {

/// General application settings.
#[derive(Debug, Clone)]
pub struct GeneralConfig {
    /// Profile name.
    pub name: String,
    /// Configuration version.
    pub version: String,
    /// Start with the system.
    pub auto_start: bool,
    /// Run as a system service.
    pub run_as_service: bool,
}

impl Default for GeneralConfig {
    /// The default general settings.
    fn default() -> (r: GeneralConfig)
        ensures
            r.name@ == "default"@,
            r.version@ == "2.0"@,
            !r.auto_start,
            !r.run_as_service,
    {
        GeneralConfig {
            name: "default".to_owned(),
            version: "2.0".to_owned(),
            auto_start: false,
            run_as_service: false,
        }
    }
}

/// DNS redirection settings.
#[derive(Debug, Clone)]
pub struct DnsConfig {
    /// Enable DNS redirection.
    pub enabled: bool,
    /// Primary DNS server, as a shortcut over the per-version fields.
    pub server: Option<IpAddress>,
    /// IPv4 upstream DNS server.
    pub ipv4_upstream: Option<Ipv4Address>,
    /// IPv4 DNS port.
    pub ipv4_port: Option<u16>,
    /// IPv6 upstream DNS server, as its 128-bit value.
    pub ipv6_upstream: Option<u128>,
    /// IPv6 DNS port.
    pub ipv6_port: Option<u16>,
    /// Flush the system DNS cache on start.
    pub flush_cache_on_start: bool,
    /// Verbose DNS logging.
    pub verbose: bool,
}

impl Default for DnsConfig {
    /// DNS redirection off, port 53 on both versions.
    fn default() -> (r: DnsConfig)
        ensures
            !r.enabled,
            r.server is None,
            r.ipv4_upstream is None,
            r.ipv4_port == Some(53u16),
            r.ipv6_upstream is None,
            r.ipv6_port == Some(53u16),
            r.flush_cache_on_start,
            !r.verbose,
    {
        DnsConfig {
            enabled: false,
            server: None,
            ipv4_upstream: None,
            ipv4_port: Some(53),
            ipv6_upstream: None,
            ipv6_port: Some(53),
            flush_cache_on_start: true,
            verbose: false,
        }
    }
}

/// The default fragmentation settings.
pub open spec fn spec_default_fragmentation() -> FragmentationConfig {
    FragmentationConfig {
        enabled: true,
        http_size: 2,
        https_size: 2,
        native_split: true,
        reverse_order: true,
        by_sni: false,
        http_persistent: true,
        persistent_nowait: true,
    }
}

/// Fragmentation strategy configuration.
#[derive(Debug, Clone, PartialEq, Eq, Structural)]
pub struct FragmentationConfig {
    /// Enable fragmentation.
    pub enabled: bool,
    /// HTTP fragment size; 0 disables fragmentation for HTTP.
    pub http_size: u16,
    /// HTTPS fragment size; 0 disables fragmentation for HTTPS.
    pub https_size: u16,
    /// Use native TCP segmentation.
    pub native_split: bool,
    /// Send fragments in reverse order.
    pub reverse_order: bool,
    /// Fragment at the SNI position.
    pub by_sni: bool,
    /// Fragment persistent HTTP connections.
    pub http_persistent: bool,
    /// Do not wait for an ACK in persistent mode.
    pub persistent_nowait: bool,
}

impl Default for FragmentationConfig {
    /// Fragmentation on, two-byte fragments, reverse order.
    fn default() -> (r: FragmentationConfig)
        ensures
            r == spec_default_fragmentation(),
    {
        FragmentationConfig {
            enabled: true,
            http_size: 2,
            https_size: 2,
            native_split: true,
            reverse_order: true,
            by_sni: false,
            http_persistent: true,
            persistent_nowait: true,
        }
    }
}

/// Auto-TTL parameters.
#[derive(Debug, Clone, Copy, PartialEq, Eq, Structural)]
pub struct AutoTtlConfig {
    /// First adjustment parameter.
    pub a1: u8,
    /// Second adjustment parameter.
    pub a2: u8,
    /// Maximum decoy TTL.
    pub max: u8,
}

impl Default for AutoTtlConfig {
    /// The conventional parameters 1, 4, 10.
    fn default() -> (r: AutoTtlConfig)
        ensures
            r == (AutoTtlConfig { a1: 1u8, a2: 4u8, max: 10u8 }),
    {
        AutoTtlConfig { a1: 1, a2: 4, max: 10 }
    }
}

/// Fake-packet strategy configuration.
#[derive(Debug, Clone)]
pub struct FakePacketConfig {
    /// Enable decoy packets.
    pub enabled: bool,
    /// Send a decoy with a damaged TCP checksum.
    pub wrong_checksum: bool,
    /// Send a decoy with shifted SEQ/ACK numbers.
    pub wrong_seq: bool,
    /// Fixed decoy TTL; `None` selects automatic computation.
    pub ttl: Option<u8>,
    /// Auto-TTL parameters, when the decoy TTL is computed from the
    /// connection's recorded hop count.
    pub auto_ttl: Option<AutoTtlConfig>,
    /// Minimum hop count below which no decoy is sent.
    pub min_ttl_hops: Option<u8>,
    /// How many times each decoy set is sent.
    pub resend_count: u8,
    /// Custom decoy payloads, hex encoded.
    pub custom_payloads: Vec<String>,
    /// Server names for synthesised decoy ClientHello payloads.
    pub fake_sni_domains: Vec<String>,
    /// Number of random decoys to generate.
    pub random_count: Option<u8>,
}

impl Default for FakePacketConfig {
    /// Decoys on, both sabotage modes, one round.
    fn default() -> (r: FakePacketConfig)
        ensures
            r.enabled,
            r.wrong_checksum,
            r.wrong_seq,
            r.ttl is None,
            r.auto_ttl is None,
            r.min_ttl_hops is None,
            r.resend_count == 1,
            r.custom_payloads@.len() == 0,
            r.fake_sni_domains@.len() == 0,
            r.random_count is None,
    {
        FakePacketConfig {
            enabled: true,
            wrong_checksum: true,
            wrong_seq: true,
            ttl: None,
            auto_ttl: None,
            min_ttl_hops: None,
            resend_count: 1,
            custom_payloads: Vec::new(),
            fake_sni_domains: Vec::new(),
            random_count: None,
        }
    }
}

/// Header-mangle strategy configuration.
#[derive(Debug, Clone, Copy, PartialEq, Eq, Structural)]
pub struct HeaderMangleConfig {
    /// Enable header manipulation.
    pub enabled: bool,
    /// Replace "Host:" with "hoSt:".
    pub host_replace: bool,
    /// Remove the space after "Host:"; length-shortening and therefore
    /// unsupported — the flag is accepted and ignored.
    pub host_remove_space: bool,
    /// Alternate the case of the Host header value.
    pub host_mix_case: bool,
    /// Add a space after the request method; unsupported — the flag is
    /// accepted and ignored.
    pub additional_space: bool,
}

impl Default for HeaderMangleConfig {
    /// All header manipulation off.
    fn default() -> (r: HeaderMangleConfig)
        ensures
            r == (HeaderMangleConfig {
                enabled: false,
                host_replace: false,
                host_remove_space: false,
                host_mix_case: false,
                additional_space: false,
            }),
    {
        HeaderMangleConfig {
            enabled: false,
            host_replace: false,
            host_remove_space: false,
            host_mix_case: false,
            additional_space: false,
        }
    }
}

/// QUIC blocking configuration.
#[derive(Debug, Clone, Copy, PartialEq, Eq, Structural)]
pub struct QuicBlockConfig {
    /// Enable QUIC blocking.
    pub enabled: bool,
}

impl Default for QuicBlockConfig {
    /// QUIC blocking on.
    fn default() -> (r: QuicBlockConfig)
        ensures
            r == (QuicBlockConfig { enabled: true }),
    {
        QuicBlockConfig { enabled: true }
    }
}

/// Passive-DPI blocking configuration.
#[derive(Debug, Clone, PartialEq, Eq)]
pub struct PassiveDpiConfig {
    /// Enable passive-DPI blocking.
    pub enabled: bool,
    /// IP identification values that mark injected RST packets.
    pub ip_ids: Vec<u16>,
}

impl Default for PassiveDpiConfig {
    /// Passive-DPI blocking off.
    fn default() -> (r: PassiveDpiConfig)
        ensures
            !r.enabled,
            r.ip_ids@.len() == 0,
    {
        PassiveDpiConfig { enabled: false, ip_ids: Vec::new() }
    }
}

/// All strategy configurations, with the flat shortcut fields the
/// command line sets.
#[derive(Debug, Clone)]
pub struct StrategiesConfig {
    /// Fragmentation strategy.
    pub fragmentation: FragmentationConfig,
    /// Fake-packet strategy.
    pub fake_packet: FakePacketConfig,
    /// Header-mangle strategy.
    pub header_mangle: HeaderMangleConfig,
    /// QUIC blocking strategy.
    pub quic_block: QuicBlockConfig,
    /// Passive-DPI blocking.
    pub passive_dpi: PassiveDpiConfig,
    /// Block QUIC (shortcut).
    pub block_quic: bool,
    /// Automatic TTL (shortcut).
    pub auto_ttl: bool,
    /// Fixed decoy TTL (shortcut).
    pub fake_ttl: Option<u8>,
    /// HTTP fragment position (shortcut).
    pub http_fragment_position: u32,
    /// HTTPS fragment position (shortcut).
    pub https_fragment_position: u32,
    /// Decoys with a damaged checksum (shortcut).
    pub fake_with_wrong_checksum: bool,
    /// Decoys with shifted sequence numbers (shortcut).
    pub fake_with_wrong_seq: bool,
}

impl Default for StrategiesConfig {
    /// Each strategy at its own default; the shortcuts at theirs.
    fn default() -> (r: StrategiesConfig)
        ensures
            r.fragmentation == spec_default_fragmentation(),
            r.fake_packet.enabled && r.fake_packet.wrong_checksum && r.fake_packet.wrong_seq,
            r.fake_packet.ttl is None && r.fake_packet.auto_ttl is None
                && r.fake_packet.min_ttl_hops is None && r.fake_packet.resend_count == 1,
            r.header_mangle == (HeaderMangleConfig {
                enabled: false,
                host_replace: false,
                host_remove_space: false,
                host_mix_case: false,
                additional_space: false,
            }),
            r.quic_block == (QuicBlockConfig { enabled: true }),
            !r.passive_dpi.enabled,
            r.block_quic,
            !r.auto_ttl,
            r.fake_ttl is None,
            r.http_fragment_position == 2,
            r.https_fragment_position == 2,
            r.fake_with_wrong_checksum,
            r.fake_with_wrong_seq,
    {
        StrategiesConfig {
            fragmentation: FragmentationConfig::default(),
            fake_packet: FakePacketConfig::default(),
            header_mangle: HeaderMangleConfig::default(),
            quic_block: QuicBlockConfig::default(),
            passive_dpi: PassiveDpiConfig::default(),
            block_quic: true,
            auto_ttl: false,
            fake_ttl: None,
            http_fragment_position: 2,
            https_fragment_position: 2,
            fake_with_wrong_checksum: true,
            fake_with_wrong_seq: true,
        }
    }
}

/// Blacklist and whitelist configuration.
#[derive(Debug, Clone)]
pub struct BlacklistConfig {
    /// Enable blacklist filtering.
    pub enabled: bool,
    /// Blacklist file paths.
    pub files: Vec<String>,
    /// Allow connections without an SNI when the blacklist is on.
    pub allow_no_sni: bool,
}

impl Default for BlacklistConfig {
    /// Blacklist filtering off.
    fn default() -> (r: BlacklistConfig)
        ensures
            !r.enabled,
            r.files@.len() == 0,
            !r.allow_no_sni,
    {
        BlacklistConfig { enabled: false, files: Vec::new(), allow_no_sni: false }
    }
}

/// Logging configuration.
#[derive(Debug, Clone)]
pub struct LoggingConfig {
    /// Log level.
    pub level: String,
    /// Log file path; `None` logs to the console only.
    pub file: Option<String>,
    /// Maximum log file size in megabytes.
    pub max_size_mb: u32,
    /// Number of rotated files to keep.
    pub rotate_count: u32,
    /// Log in JSON format.
    pub json_format: bool,
}

impl Default for LoggingConfig {
    /// Level "info", console only.
    fn default() -> (r: LoggingConfig)
        ensures
            r.level@ == "info"@,
            r.file is None,
            r.max_size_mb == 10,
            r.rotate_count == 5,
            !r.json_format,
    {
        LoggingConfig {
            level: "info".to_owned(),
            file: None,
            max_size_mb: 10,
            rotate_count: 5,
            json_format: false,
        }
    }
}

/// Performance tuning configuration.
#[derive(Debug, Clone)]
pub struct PerformanceConfig {
    /// Maximum payload size to process.
    pub max_payload_size: u16,
    /// Number of worker threads; 0 selects automatically.
    pub worker_threads: u8,
    /// Maximum connection-tracking entries.
    pub conntrack_max_entries: usize,
    /// Connection-tracking cleanup interval in seconds.
    pub conntrack_cleanup_interval: u32,
    /// Process HTTP on all ports, not only port 80.
    pub http_all_ports: bool,
    /// Additional ports to process.
    pub additional_ports: Vec<u16>,
}

impl Default for PerformanceConfig {
    /// The default tuning values.
    fn default() -> (r: PerformanceConfig)
        ensures
            r.max_payload_size == 1200,
            r.worker_threads == 0,
            r.conntrack_max_entries == 10000,
            r.conntrack_cleanup_interval == 30,
            !r.http_all_ports,
            r.additional_ports@.len() == 0,
    {
        PerformanceConfig {
            max_payload_size: 1200,
            worker_threads: 0,
            conntrack_max_entries: 10000,
            conntrack_cleanup_interval: 30,
            http_all_ports: false,
            additional_ports: Vec::new(),
        }
    }
}

/// The complete engine configuration.
#[derive(Debug, Clone)]
pub struct Config {
    /// Active profile, when one was selected.
    pub profile: Option<crate::profile::Profile>,
    /// General application settings.
    pub general: GeneralConfig,
    /// DNS redirection settings.
    pub dns: DnsConfig,
    /// Strategy configurations.
    pub strategies: StrategiesConfig,
    /// Blacklist and whitelist settings.
    pub blacklist: BlacklistConfig,
    /// Logging configuration.
    pub logging: LoggingConfig,
    /// Performance tuning.
    pub performance: PerformanceConfig,
}

impl Default for Config {
    /// Every section at its default.
    fn default() -> (r: Config)
        ensures
            r.profile is None,
            !r.dns.enabled,
            r.dns.ipv4_upstream is None,
            r.dns.ipv4_port == Some(53u16),
            r.strategies.fragmentation == spec_default_fragmentation(),
            r.strategies.fake_packet.enabled && r.strategies.fake_packet.wrong_checksum
                && r.strategies.fake_packet.wrong_seq,
            r.strategies.fake_packet.ttl is None && r.strategies.fake_packet.auto_ttl is None
                && r.strategies.fake_packet.min_ttl_hops is None
                && r.strategies.fake_packet.resend_count == 1,
            r.strategies.header_mangle == (HeaderMangleConfig {
                enabled: false,
                host_replace: false,
                host_remove_space: false,
                host_mix_case: false,
                additional_space: false,
            }),
            r.strategies.quic_block == (QuicBlockConfig { enabled: true }),
            !r.strategies.passive_dpi.enabled,
            !r.blacklist.enabled,
            r.performance.max_payload_size == 1200,
    {
        Config {
            profile: None,
            general: GeneralConfig::default(),
            dns: DnsConfig::default(),
            strategies: StrategiesConfig::default(),
            blacklist: BlacklistConfig::default(),
            logging: LoggingConfig::default(),
            performance: PerformanceConfig::default(),
        }
    }
}

/// Whether a configuration passes validation: the DNS port is non-zero
/// when redirection is on, at least one fragment size is non-zero when
/// fragmentation is on (a single zero size only disables that
/// protocol), and a fixed decoy TTL is non-zero.
pub open spec fn spec_config_valid(c: Config) -> bool {
    &&& !(c.dns.enabled && c.dns.ipv4_port == Some(0u16))
    &&& !(c.strategies.fragmentation.enabled && c.strategies.fragmentation.http_size == 0
        && c.strategies.fragmentation.https_size == 0)
    &&& c.strategies.fake_packet.ttl != Some(0u8)
}

impl Config {
    /// Validate the configuration, naming the first offending value.
    pub fn validate(&self) -> (r: Result<(), Error>)
        ensures
            r is Ok <==> spec_config_valid(*self),
            (self.dns.enabled && self.dns.ipv4_port == Some(0u16)) ==> (r matches Err(e)
                && e matches Error::InvalidPort { port: 0 }),
            (!(self.dns.enabled && self.dns.ipv4_port == Some(0u16))
                && self.strategies.fragmentation.enabled && self.strategies.fragmentation.http_size
                == 0 && self.strategies.fragmentation.https_size == 0) ==> (r matches Err(e)
                && e is ConfigValue),
            (!(self.dns.enabled && self.dns.ipv4_port == Some(0u16)) && !(
            self.strategies.fragmentation.enabled && self.strategies.fragmentation.http_size == 0
                && self.strategies.fragmentation.https_size == 0)
                && self.strategies.fake_packet.ttl == Some(0u8)) ==> (r matches Err(e)
                && e matches Error::InvalidTtl { ttl: 0 }),
    {
        if self.dns.enabled {
            if let Some(port) = self.dns.ipv4_port {
                if port == 0 {
                    return Err(Error::InvalidPort { port: port as u32 });
                }
            }
        }
        if self.strategies.fragmentation.enabled {
            let http_size = self.strategies.fragmentation.http_size;
            let https_size = self.strategies.fragmentation.https_size;
            if http_size == 0 && https_size == 0 {
                return Err(
                    Error::config_value(
                        "strategies.fragmentation",
                        "At least one of http_size or https_size must be non-zero when fragmentation is enabled",
                    ),
                );
            }
        }
        if let Some(ttl) = self.strategies.fake_packet.ttl {
            if ttl == 0 {
                return Err(Error::InvalidTtl { ttl: ttl as u16 });
            }
        }
        Ok(())
    }

    /// The configuration a preset profile stands for.
    pub fn from_profile(profile: crate::profile::Profile) -> (r: Config)
        ensures
            crate::profile::spec_profile_config(profile, r),
    {
        profile.into_config()
    }

    /// The configuration of a legacy numbered mode, 1 through 9.
    pub fn from_legacy_mode(mode: u8) -> (r: Result<Config, Error>)
        ensures
            r is Ok <==> 1 <= mode <= 9,
            r matches Ok(c) ==> crate::profile::spec_profile_config(
                crate::profile::spec_profile_of_mode(mode),
                c,
            ),
    {
        match mode {
            1 => Ok(Self::from_profile(crate::profile::Profile::Mode1)),
            2 => Ok(Self::from_profile(crate::profile::Profile::Mode2)),
            3 => Ok(Self::from_profile(crate::profile::Profile::Mode3)),
            4 => Ok(Self::from_profile(crate::profile::Profile::Mode4)),
            5 => Ok(Self::from_profile(crate::profile::Profile::Mode5)),
            6 => Ok(Self::from_profile(crate::profile::Profile::Mode6)),
            7 => Ok(Self::from_profile(crate::profile::Profile::Mode7)),
            8 => Ok(Self::from_profile(crate::profile::Profile::Mode8)),
            9 => Ok(Self::from_profile(crate::profile::Profile::Mode9)),
            _ => Err(Error::config_value("mode", "legacy mode must be 1 through 9")),
        }
    }
}

} // verus!

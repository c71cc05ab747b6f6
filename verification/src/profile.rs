//! Preset profiles: nine numbered strategy combinations and one
//! region-tailored preset that adds DNS redirection.

use crate::addr::Ipv4Address;
use crate::config::{AutoTtlConfig, Config};
use crate::error::Error;
use crate::util::{bytes_eq, lower_bytes, spec_lower_bytes};
use vstd::prelude::*;
use vstd::string::*;

verus! {

/// A preset strategy combination.
#[derive(Debug, Clone, Copy, PartialEq, Eq, Structural)]
pub enum Profile {
    /// Most compatible: passive DPI, header mangle, two-byte fragments.
    Mode1,
    /// Better HTTPS speed: like the first mode with 40-byte HTTPS
    /// fragments.
    Mode2,
    /// Better HTTP and HTTPS speed: HTTP fragmentation off.
    Mode3,
    /// Best speed: passive DPI and header mangle only.
    Mode4,
    /// Auto-TTL decoys with reverse-order fragmentation.
    Mode5,
    /// Wrong-sequence decoys with reverse-order fragmentation.
    Mode6,
    /// Wrong-checksum decoys with reverse-order fragmentation.
    Mode7,
    /// Wrong-sequence and wrong-checksum decoys.
    Mode8,
    /// The full set with QUIC blocking; the default.
    Mode9,
    /// The full set plus DNS redirection to the regional resolver.
    Turkey,
    /// Defaults, for the user to customise.
    Custom,
}

/// The profile a legacy numbered mode stands for.
pub open spec fn spec_profile_of_mode(mode: u8) -> Profile {
    if mode == 1 {
        Profile::Mode1
    } else if mode == 2 {
        Profile::Mode2
    } else if mode == 3 {
        Profile::Mode3
    } else if mode == 4 {
        Profile::Mode4
    } else if mode == 5 {
        Profile::Mode5
    } else if mode == 6 {
        Profile::Mode6
    } else if mode == 7 {
        Profile::Mode7
    } else if mode == 8 {
        Profile::Mode8
    } else {
        Profile::Mode9
    }
}

/// The legacy header-mangle shape shared by the first four modes.
pub open spec fn spec_legacy_mangle_on(c: Config) -> bool {
    &&& c.strategies.passive_dpi.enabled
    &&& c.strategies.header_mangle.enabled
    &&& c.strategies.header_mangle.host_replace
    &&& c.strategies.header_mangle.host_remove_space
    &&& !c.strategies.fake_packet.enabled
    &&& !c.strategies.quic_block.enabled
}

/// The reverse-order fragmentation shape shared by the decoy modes.
pub open spec fn spec_modern_frag_on(c: Config) -> bool {
    &&& c.strategies.fragmentation.enabled
    &&& c.strategies.fragmentation.http_size == 2
    &&& c.strategies.fragmentation.https_size == 2
    &&& c.strategies.fragmentation.native_split
    &&& c.strategies.fragmentation.reverse_order
    &&& c.strategies.fake_packet.enabled
    &&& c.performance.max_payload_size == 1200
}

/// The untouched defaults every profile keeps: no fixed decoy TTL and
/// no blacklist.
pub open spec fn spec_profile_base(c: Config) -> bool {
    &&& c.strategies.fake_packet.ttl is None
    &&& !c.blacklist.enabled
}

/// What `into_config` pins down for each profile.
pub open spec fn spec_profile_config(p: Profile, c: Config) -> bool {
    &&& spec_profile_base(c)
    &&& match p {
        Profile::Mode1 => {
            &&& spec_legacy_mangle_on(c)
            &&& c.strategies.fragmentation.enabled
            &&& c.strategies.fragmentation.http_size == 2
            &&& c.strategies.fragmentation.https_size == 2
            &&& !c.dns.enabled
        },
        Profile::Mode2 => {
            &&& spec_legacy_mangle_on(c)
            &&& c.strategies.fragmentation.enabled
            &&& c.strategies.fragmentation.http_size == 2
            &&& c.strategies.fragmentation.https_size == 40
            &&& !c.dns.enabled
        },
        Profile::Mode3 => {
            &&& spec_legacy_mangle_on(c)
            &&& c.strategies.fragmentation.enabled
            &&& c.strategies.fragmentation.http_size == 0
            &&& c.strategies.fragmentation.https_size == 40
            &&& !c.dns.enabled
        },
        Profile::Mode4 => {
            &&& spec_legacy_mangle_on(c)
            &&& !c.strategies.fragmentation.enabled
            &&& !c.dns.enabled
        },
        Profile::Mode5 => {
            &&& spec_modern_frag_on(c)
            &&& c.strategies.fake_packet.auto_ttl == Some(
                (AutoTtlConfig { a1: 1u8, a2: 4u8, max: 10u8 }),
            )
            &&& !c.strategies.fake_packet.wrong_checksum
            &&& !c.strategies.fake_packet.wrong_seq
            &&& !c.strategies.quic_block.enabled
            &&& !c.dns.enabled
        },
        Profile::Mode6 => {
            &&& spec_modern_frag_on(c)
            &&& !c.strategies.fake_packet.wrong_checksum
            &&& c.strategies.fake_packet.wrong_seq
            &&& !c.strategies.quic_block.enabled
            &&& !c.dns.enabled
        },
        Profile::Mode7 => {
            &&& spec_modern_frag_on(c)
            &&& c.strategies.fake_packet.wrong_checksum
            &&& !c.strategies.fake_packet.wrong_seq
            &&& !c.strategies.quic_block.enabled
            &&& !c.dns.enabled
        },
        Profile::Mode8 => {
            &&& spec_modern_frag_on(c)
            &&& c.strategies.fake_packet.wrong_checksum
            &&& c.strategies.fake_packet.wrong_seq
            &&& !c.strategies.quic_block.enabled
            &&& !c.dns.enabled
        },
        Profile::Mode9 => {
            &&& spec_modern_frag_on(c)
            &&& c.strategies.fake_packet.wrong_checksum
            &&& c.strategies.fake_packet.wrong_seq
            &&& c.strategies.quic_block.enabled
            &&& !c.dns.enabled
        },
        Profile::Turkey => {
            &&& spec_modern_frag_on(c)
            &&& c.strategies.fake_packet.wrong_checksum
            &&& c.strategies.fake_packet.wrong_seq
            &&& c.strategies.quic_block.enabled
            &&& c.dns.enabled
            &&& c.dns.ipv4_upstream == Some((Ipv4Address { o0: 77, o1: 88, o2: 8, o3: 8 }))
            &&& c.dns.ipv4_port == Some(53u16)
            &&& c.dns.flush_cache_on_start
        },
        Profile::Custom => {
            &&& c.strategies.fragmentation.enabled
            &&& c.strategies.fragmentation.http_size == 2
            &&& c.strategies.fragmentation.https_size == 2
            &&& !c.dns.enabled
        },
    }
}

/// The short name of each profile.
pub open spec fn spec_profile_name(p: Profile) -> Seq<char> {
    match p {
        Profile::Mode1 => "mode1"@,
        Profile::Mode2 => "mode2"@,
        Profile::Mode3 => "mode3"@,
        Profile::Mode4 => "mode4"@,
        Profile::Mode5 => "mode5"@,
        Profile::Mode6 => "mode6"@,
        Profile::Mode7 => "mode7"@,
        Profile::Mode8 => "mode8"@,
        Profile::Mode9 => "mode9"@,
        Profile::Turkey => "turkey"@,
        Profile::Custom => "custom"@,
    }
}

/// The profile a lower-cased name denotes, if any.
pub open spec fn spec_profile_of_name(s: Seq<u8>) -> Option<Profile> {
    if s == "1".spec_bytes() || s == "mode1".spec_bytes() {
        Some(Profile::Mode1)
    } else if s == "2".spec_bytes() || s == "mode2".spec_bytes() {
        Some(Profile::Mode2)
    } else if s == "3".spec_bytes() || s == "mode3".spec_bytes() {
        Some(Profile::Mode3)
    } else if s == "4".spec_bytes() || s == "mode4".spec_bytes() {
        Some(Profile::Mode4)
    } else if s == "5".spec_bytes() || s == "mode5".spec_bytes() {
        Some(Profile::Mode5)
    } else if s == "6".spec_bytes() || s == "mode6".spec_bytes() {
        Some(Profile::Mode6)
    } else if s == "7".spec_bytes() || s == "mode7".spec_bytes() {
        Some(Profile::Mode7)
    } else if s == "8".spec_bytes() || s == "mode8".spec_bytes() {
        Some(Profile::Mode8)
    } else if s == "9".spec_bytes() || s == "mode9".spec_bytes() || s == "default".spec_bytes() {
        Some(Profile::Mode9)
    } else if s == "turkey".spec_bytes() || s == "tr".spec_bytes() {
        Some(Profile::Turkey)
    } else if s == "custom".spec_bytes() {
        Some(Profile::Custom)
    } else {
        None
    }
}

impl Profile {
    /// The full configuration this profile stands for.
    #[verifier::rlimit(100)]
    pub fn into_config(self) -> (r: Config)
        ensures
            spec_profile_config(self, r),
    {
        let mut config = Config::default();
        match self {
            Profile::Mode1 => {
                config.strategies.passive_dpi.enabled = true;
                config.strategies.header_mangle.enabled = true;
                config.strategies.header_mangle.host_replace = true;
                config.strategies.header_mangle.host_remove_space = true;
                config.strategies.fragmentation.enabled = true;
                config.strategies.fragmentation.http_size = 2;
                config.strategies.fragmentation.https_size = 2;
                config.strategies.fragmentation.http_persistent = true;
                config.strategies.fragmentation.persistent_nowait = true;
                config.strategies.fragmentation.native_split = false;
                config.strategies.fake_packet.enabled = false;
                config.strategies.quic_block.enabled = false;
            },
            Profile::Mode2 => {
                config.strategies.passive_dpi.enabled = true;
                config.strategies.header_mangle.enabled = true;
                config.strategies.header_mangle.host_replace = true;
                config.strategies.header_mangle.host_remove_space = true;
                config.strategies.fragmentation.enabled = true;
                config.strategies.fragmentation.http_size = 2;
                config.strategies.fragmentation.https_size = 40;
                config.strategies.fragmentation.http_persistent = true;
                config.strategies.fragmentation.persistent_nowait = true;
                config.strategies.fragmentation.native_split = false;
                config.strategies.fake_packet.enabled = false;
                config.strategies.quic_block.enabled = false;
            },
            Profile::Mode3 => {
                config.strategies.passive_dpi.enabled = true;
                config.strategies.header_mangle.enabled = true;
                config.strategies.header_mangle.host_replace = true;
                config.strategies.header_mangle.host_remove_space = true;
                config.strategies.fragmentation.enabled = true;
                config.strategies.fragmentation.http_size = 0;
                config.strategies.fragmentation.https_size = 40;
                config.strategies.fragmentation.native_split = false;
                config.strategies.fake_packet.enabled = false;
                config.strategies.quic_block.enabled = false;
            },
            Profile::Mode4 => {
                config.strategies.passive_dpi.enabled = true;
                config.strategies.header_mangle.enabled = true;
                config.strategies.header_mangle.host_replace = true;
                config.strategies.header_mangle.host_remove_space = true;
                config.strategies.fragmentation.enabled = false;
                config.strategies.fake_packet.enabled = false;
                config.strategies.quic_block.enabled = false;
            },
            Profile::Mode5 => {
                config.strategies.fragmentation.enabled = true;
                config.strategies.fragmentation.http_size = 2;
                config.strategies.fragmentation.https_size = 2;
                config.strategies.fragmentation.native_split = true;
                config.strategies.fragmentation.reverse_order = true;
                config.strategies.fragmentation.http_persistent = true;
                config.strategies.fragmentation.persistent_nowait = true;
                config.strategies.fake_packet.enabled = true;
                config.strategies.fake_packet.auto_ttl = Some(AutoTtlConfig::default());
                config.strategies.fake_packet.wrong_checksum = false;
                config.strategies.fake_packet.wrong_seq = false;
                config.performance.max_payload_size = 1200;
                config.strategies.quic_block.enabled = false;
            },
            Profile::Mode6 => {
                config.strategies.fragmentation.enabled = true;
                config.strategies.fragmentation.http_size = 2;
                config.strategies.fragmentation.https_size = 2;
                config.strategies.fragmentation.native_split = true;
                config.strategies.fragmentation.reverse_order = true;
                config.strategies.fragmentation.http_persistent = true;
                config.strategies.fragmentation.persistent_nowait = true;
                config.strategies.fake_packet.enabled = true;
                config.strategies.fake_packet.wrong_seq = true;
                config.strategies.fake_packet.wrong_checksum = false;
                config.performance.max_payload_size = 1200;
                config.strategies.quic_block.enabled = false;
            },
            Profile::Mode7 => {
                config.strategies.fragmentation.enabled = true;
                config.strategies.fragmentation.http_size = 2;
                config.strategies.fragmentation.https_size = 2;
                config.strategies.fragmentation.native_split = true;
                config.strategies.fragmentation.reverse_order = true;
                config.strategies.fragmentation.http_persistent = true;
                config.strategies.fragmentation.persistent_nowait = true;
                config.strategies.fake_packet.enabled = true;
                config.strategies.fake_packet.wrong_checksum = true;
                config.strategies.fake_packet.wrong_seq = false;
                config.performance.max_payload_size = 1200;
                config.strategies.quic_block.enabled = false;
            },
            Profile::Mode8 => {
                config.strategies.fragmentation.enabled = true;
                config.strategies.fragmentation.http_size = 2;
                config.strategies.fragmentation.https_size = 2;
                config.strategies.fragmentation.native_split = true;
                config.strategies.fragmentation.reverse_order = true;
                config.strategies.fragmentation.http_persistent = true;
                config.strategies.fragmentation.persistent_nowait = true;
                config.strategies.fake_packet.enabled = true;
                config.strategies.fake_packet.wrong_checksum = true;
                config.strategies.fake_packet.wrong_seq = true;
                config.performance.max_payload_size = 1200;
                config.strategies.quic_block.enabled = false;
            },
            Profile::Mode9 => {
                config.strategies.fragmentation.enabled = true;
                config.strategies.fragmentation.http_size = 2;
                config.strategies.fragmentation.https_size = 2;
                config.strategies.fragmentation.native_split = true;
                config.strategies.fragmentation.reverse_order = true;
                config.strategies.fragmentation.http_persistent = true;
                config.strategies.fragmentation.persistent_nowait = true;
                config.strategies.fake_packet.enabled = true;
                config.strategies.fake_packet.wrong_checksum = true;
                config.strategies.fake_packet.wrong_seq = true;
                config.performance.max_payload_size = 1200;
                config.strategies.quic_block.enabled = true;
            },
            Profile::Turkey => {
                config.strategies.fragmentation.enabled = true;
                config.strategies.fragmentation.http_size = 2;
                config.strategies.fragmentation.https_size = 2;
                config.strategies.fragmentation.native_split = true;
                config.strategies.fragmentation.reverse_order = true;
                config.strategies.fragmentation.http_persistent = true;
                config.strategies.fragmentation.persistent_nowait = true;
                config.strategies.fake_packet.enabled = true;
                config.strategies.fake_packet.wrong_checksum = true;
                config.strategies.fake_packet.wrong_seq = true;
                config.performance.max_payload_size = 1200;
                config.strategies.quic_block.enabled = true;
                config.general.name = "Turkey".to_owned();
                config.dns.enabled = true;
                config.dns.ipv4_upstream = Some(Ipv4Address::new(77, 88, 8, 8));
                config.dns.ipv4_port = Some(53);
                config.dns.flush_cache_on_start = true;
            },
            Profile::Custom => {
            },
        }
        config
    }

    /// The short name of the profile.
    pub fn name(&self) -> (r: &'static str)
        ensures
            r@ == spec_profile_name(*self),
    {
        match self {
            Profile::Mode1 => "mode1",
            Profile::Mode2 => "mode2",
            Profile::Mode3 => "mode3",
            Profile::Mode4 => "mode4",
            Profile::Mode5 => "mode5",
            Profile::Mode6 => "mode6",
            Profile::Mode7 => "mode7",
            Profile::Mode8 => "mode8",
            Profile::Mode9 => "mode9",
            Profile::Turkey => "turkey",
            Profile::Custom => "custom",
        }
    }

    /// A one-line description of the profile.
    pub fn description(&self) -> &'static str {
        match self {
            Profile::Mode1 => "Most compatible mode (legacy)",
            Profile::Mode2 => "Better HTTPS speed (legacy)",
            Profile::Mode3 => "Better HTTP/HTTPS speed (legacy)",
            Profile::Mode4 => "Best speed, minimal processing (legacy)",
            Profile::Mode5 => "Modern: Auto-TTL + reverse fragmentation",
            Profile::Mode6 => "Modern: Wrong SEQ + reverse fragmentation",
            Profile::Mode7 => "Modern: Wrong checksum + reverse fragmentation",
            Profile::Mode8 => "Modern: Wrong SEQ + wrong checksum",
            Profile::Mode9 => "Modern: Full mode with QUIC blocking (default)",
            Profile::Turkey => "Turkey optimized with DNS redirection",
            Profile::Custom => "Custom configuration",
        }
    }

    /// The profile a name denotes, case-insensitively: a digit, a
    /// "mode" name, "default", "turkey", "tr" or "custom".
    pub fn from_name(name: &str) -> (r: Result<Profile, Error>)
        ensures
            r is Ok <==> spec_profile_of_name(spec_lower_bytes(name.spec_bytes())) is Some,
            r matches Ok(p) ==> Some(p) == spec_profile_of_name(
                spec_lower_bytes(name.spec_bytes()),
            ),
    {
        let low = lower_bytes(name.as_bytes());
        let s = low.as_slice();
        if bytes_eq(s, "1".as_bytes()) || bytes_eq(s, "mode1".as_bytes()) {
            Ok(Profile::Mode1)
        } else if bytes_eq(s, "2".as_bytes()) || bytes_eq(s, "mode2".as_bytes()) {
            Ok(Profile::Mode2)
        } else if bytes_eq(s, "3".as_bytes()) || bytes_eq(s, "mode3".as_bytes()) {
            Ok(Profile::Mode3)
        } else if bytes_eq(s, "4".as_bytes()) || bytes_eq(s, "mode4".as_bytes()) {
            Ok(Profile::Mode4)
        } else if bytes_eq(s, "5".as_bytes()) || bytes_eq(s, "mode5".as_bytes()) {
            Ok(Profile::Mode5)
        } else if bytes_eq(s, "6".as_bytes()) || bytes_eq(s, "mode6".as_bytes()) {
            Ok(Profile::Mode6)
        } else if bytes_eq(s, "7".as_bytes()) || bytes_eq(s, "mode7".as_bytes()) {
            Ok(Profile::Mode7)
        } else if bytes_eq(s, "8".as_bytes()) || bytes_eq(s, "mode8".as_bytes()) {
            Ok(Profile::Mode8)
        } else if bytes_eq(s, "9".as_bytes()) || bytes_eq(s, "mode9".as_bytes()) || bytes_eq(
            s,
            "default".as_bytes(),
        ) {
            Ok(Profile::Mode9)
        } else if bytes_eq(s, "turkey".as_bytes()) || bytes_eq(s, "tr".as_bytes()) {
            Ok(Profile::Turkey)
        } else if bytes_eq(s, "custom".as_bytes()) {
            Ok(Profile::Custom)
        } else {
            Err(Error::config_value("profile", "unknown profile name"))
        }
    }
}

impl core::str::FromStr for Profile {
    type Err = Error;

    /// Parse a profile name; the same names `from_name` accepts.
    fn from_str(s: &str) -> Result<Profile, Error> {
        Profile::from_name(s)
    }
}

} // verus!

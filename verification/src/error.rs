//! Error type of the library.
//!
//! Packet-level errors are recoverable: the engine passes the affected
//! packet through unchanged and keeps running.  Configuration errors are
//! fatal at start-up.

use crate::util::{decimal_string, spec_decimal, spec_ascii_chars};
use vstd::prelude::*;
use vstd::string::*;

verus! {

/// What went wrong in a library operation.
#[derive(Debug)]
pub enum Error {
    /// Packet parsing failed.
    PacketParse {
        /// Detailed error message.
        message: String,
        /// Offset in the packet where the error occurred, if known.
        offset: Option<usize>,
    },
    /// The packet is too small for the headers it claims.
    PacketTooSmall {
        /// Minimum expected size.
        expected: usize,
        /// Actual packet size.
        actual: usize,
    },
    /// The IP version nibble is neither 4 nor 6.
    UnsupportedVersion {
        /// The version nibble that was read.
        version: u8,
    },
    /// A payload split was requested at an impossible offset.
    SplitOutOfRange {
        /// The requested offset.
        offset: usize,
        /// The payload length of the packet.
        payload_len: usize,
    },
    /// A strategy failed.
    Strategy {
        /// Name of the strategy that failed.
        strategy: String,
        /// Error message.
        message: String,
    },
    /// A configuration error described in free text.
    Config(String),
    /// The configuration file was not found.
    ConfigNotFound {
        /// Path to the missing file.
        path: String,
    },
    /// A configuration value is invalid.
    ConfigValue {
        /// Configuration key.
        key: String,
        /// Error message.
        message: String,
    },
    /// A port number is invalid.
    InvalidPort {
        /// The invalid port.
        port: u32,
    },
    /// A TTL value is invalid.
    InvalidTtl {
        /// The invalid TTL.
        ttl: u16,
    },
}

impl Error {
    /// A packet-parse error without an offset.
    pub fn packet_parse(message: &str) -> (r: Error)
        ensures
            r is PacketParse,
            r->PacketParse_message@ == message@,
            r->PacketParse_offset is None,
    {
        Error::PacketParse { message: message.to_owned(), offset: None }
    }

    /// A packet-parse error at a known offset.
    pub fn packet_parse_at(message: &str, offset: usize) -> (r: Error)
        ensures
            r is PacketParse,
            r->PacketParse_message@ == message@,
            r->PacketParse_offset == Some(offset),
    {
        Error::PacketParse { message: message.to_owned(), offset: Some(offset) }
    }

    /// A strategy error.
    pub fn strategy(strategy: &str, message: &str) -> (r: Error)
        ensures
            r is Strategy,
            r->Strategy_strategy@ == strategy@,
            r->Strategy_message@ == message@,
    {
        Error::Strategy { strategy: strategy.to_owned(), message: message.to_owned() }
    }

    /// A configuration-value error.
    pub fn config_value(key: &str, message: &str) -> (r: Error)
        ensures
            r is ConfigValue,
            r->ConfigValue_key@ == key@,
            r->ConfigValue_message@ == message@,
    {
        Error::ConfigValue { key: key.to_owned(), message: message.to_owned() }
    }

    /// A one-line description of the error.  The text contains the
    /// variant's message and its numeric details, never packet contents.
    pub fn message(&self) -> String {
        match self {
            Error::PacketParse { message, offset: _ } => {
                let mut m = String::new();
                m.append("Packet parsing error: ");
                m.append(message.as_str());
                m
            },
            Error::PacketTooSmall { expected, actual } => {
                let mut m = String::new();
                m.append("Packet too small: expected at least ");
                m.append(usize_string(*expected).as_str());
                m.append(" bytes, got ");
                m.append(usize_string(*actual).as_str());
                m
            },
            Error::UnsupportedVersion { version } => {
                let mut m = String::new();
                m.append("Unknown IP version: ");
                m.append(usize_string(*version as usize).as_str());
                m
            },
            Error::SplitOutOfRange { offset, payload_len } => {
                let mut m = String::new();
                m.append("Split offset ");
                m.append(usize_string(*offset).as_str());
                m.append(" is out of range for payload length ");
                m.append(usize_string(*payload_len).as_str());
                m
            },
            Error::Strategy { strategy, message } => {
                let mut m = String::new();
                m.append("Strategy '");
                m.append(strategy.as_str());
                m.append("' failed: ");
                m.append(message.as_str());
                m
            },
            Error::Config(message) => {
                let mut m = String::new();
                m.append("Configuration error: ");
                m.append(message.as_str());
                m
            },
            Error::ConfigNotFound { path } => {
                let mut m = String::new();
                m.append("Configuration file not found: ");
                m.append(path.as_str());
                m
            },
            Error::ConfigValue { key, message } => {
                let mut m = String::new();
                m.append("Invalid configuration value for '");
                m.append(key.as_str());
                m.append("': ");
                m.append(message.as_str());
                m
            },
            Error::InvalidPort { port } => {
                let mut m = String::new();
                m.append("Invalid port number: ");
                m.append(usize_string(*port as usize).as_str());
                m.append(" (must be 1-65535)");
                m
            },
            Error::InvalidTtl { ttl } => {
                let mut m = String::new();
                m.append("Invalid TTL value: ");
                m.append(usize_string(*ttl as usize).as_str());
                m.append(" (must be 1-255)");
                m
            },
        }
    }
}

/// Render a `usize` in decimal.
fn usize_string(n: usize) -> (r: String)
    ensures
        r@ == spec_ascii_chars(spec_decimal(n as int)),
{
    decimal_string(n as u64)
}

} // verus!

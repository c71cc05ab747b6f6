//! Well-known ports the engine matches on.

use vstd::prelude::*;

verus! {

/// HTTP port.
pub const HTTP: u16 = 80;

/// HTTPS port.
pub const HTTPS: u16 = 443;

/// DNS port.
pub const DNS: u16 = 53;

/// QUIC port, the same as HTTPS.
pub const QUIC: u16 = 443;

} // verus!

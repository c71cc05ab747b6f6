//! IP addresses as plain values.
//!
//! The engine reads addresses out of raw packet bytes and writes them
//! back; it never resolves or routes.  Addresses are therefore modelled
//! directly: an IPv4 address as its four octets, an IPv6 address as its
//! 128-bit value, big-endian.

use vstd::prelude::*;

verus! {

/// An IPv4 address, by octets.
#[derive(Debug, Clone, Copy, PartialEq, Eq, Structural, Hash)]
pub struct Ipv4Address {
    /// First octet.
    pub o0: u8,
    /// Second octet.
    pub o1: u8,
    /// Third octet.
    pub o2: u8,
    /// Fourth octet.
    pub o3: u8,
}

impl Ipv4Address {
    /// The address `o0.o1.o2.o3`.
    pub fn new(o0: u8, o1: u8, o2: u8, o3: u8) -> (r: Ipv4Address)
        ensures
            r == (Ipv4Address { o0, o1, o2, o3 }),
    {
        Ipv4Address { o0, o1, o2, o3 }
    }
}

/// An IP address of either version.
#[derive(Debug, Clone, Copy, PartialEq, Eq, Structural, Hash)]
pub enum IpAddress {
    /// An IPv4 address.
    V4(Ipv4Address),
    /// An IPv6 address, as its 128-bit big-endian value.
    V6(u128),
}

impl IpAddress {
    /// Whether this is an IPv4 address.
    pub fn is_v4(&self) -> (r: bool)
        ensures
            r == (self is V4),
    {
        match self {
            IpAddress::V4(_) => true,
            IpAddress::V6(_) => false,
        }
    }

    /// Whether this is an IPv6 address.
    pub fn is_v6(&self) -> (r: bool)
        ensures
            r == (self is V6),
    {
        match self {
            IpAddress::V4(_) => false,
            IpAddress::V6(_) => true,
        }
    }
}

} // verus!

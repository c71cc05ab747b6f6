//! Basic packet type definitions: direction, IP version, transport
//! protocol and TCP flags.

use vstd::prelude::*;

verus! {

/// Packet direction relative to this host.
#[derive(Debug, Clone, Copy, PartialEq, Eq, Structural)]
pub enum Direction {
    /// Packet is outbound (leaving the host).
    Outbound,
    /// Packet is inbound (arriving at the host).
    Inbound,
}

/// IP version of a packet.
#[derive(Debug, Clone, Copy, PartialEq, Eq, Structural)]
pub enum IpVersion {
    /// IPv4.
    V4,
    /// IPv6.
    V6,
}

/// Transport protocol carried by an IP packet.
#[derive(Debug, Clone, Copy, PartialEq, Eq, Structural)]
pub enum Protocol {
    /// TCP (protocol number 6).
    Tcp,
    /// UDP (protocol number 17).
    Udp,
    /// ICMP (protocol number 1).
    Icmp,
    /// ICMPv6 (protocol number 58).
    Icmpv6,
    /// Any other protocol.
    Unknown,
}

/// The protocol that an IP protocol number denotes.
pub open spec fn spec_protocol_of(proto: u8) -> Protocol {
    if proto == 1 {
        Protocol::Icmp
    } else if proto == 6 {
        Protocol::Tcp
    } else if proto == 17 {
        Protocol::Udp
    } else if proto == 58 {
        Protocol::Icmpv6
    } else {
        Protocol::Unknown
    }
}

/// The protocol number of a protocol; `Unknown` maps to 0.
pub open spec fn spec_protocol_number(p: Protocol) -> u8 {
    match p {
        Protocol::Icmp => 1,
        Protocol::Tcp => 6,
        Protocol::Udp => 17,
        Protocol::Icmpv6 => 58,
        Protocol::Unknown => 0,
    }
}

impl Protocol {
    /// Classify an IP protocol number.
    pub fn from_u8(proto: u8) -> (r: Protocol)
        ensures
            r == spec_protocol_of(proto),
    {
        match proto {
            1 => Protocol::Icmp,
            6 => Protocol::Tcp,
            17 => Protocol::Udp,
            58 => Protocol::Icmpv6,
            _ => Protocol::Unknown,
        }
    }

    /// The IP protocol number of this protocol; `Unknown` yields 0.
    pub fn to_u8(self) -> (r: u8)
        ensures
            r == spec_protocol_number(self),
    {
        match self {
            Protocol::Icmp => 1,
            Protocol::Tcp => 6,
            Protocol::Udp => 17,
            Protocol::Icmpv6 => 58,
            Protocol::Unknown => 0,
        }
    }
}

/// Round trip: the protocol number of a known protocol classifies back
/// to the same protocol.
pub proof fn lemma_protocol_roundtrip(p: Protocol)
    requires
        p != Protocol::Unknown,
    ensures
        spec_protocol_of(spec_protocol_number(p)) == p,
{
}

/// The eight TCP flag bits, decoded.
#[derive(Debug, Clone, Copy, PartialEq, Eq, Structural, Default)]
pub struct TcpFlags {
    /// FIN flag.
    pub fin: bool,
    /// SYN flag.
    pub syn: bool,
    /// RST flag.
    pub rst: bool,
    /// PSH flag.
    pub psh: bool,
    /// ACK flag.
    pub ack: bool,
    /// URG flag.
    pub urg: bool,
    /// ECE flag.
    pub ece: bool,
    /// CWR flag.
    pub cwr: bool,
}

/// The flags decoded from a TCP flag byte.
pub open spec fn spec_flags_of_byte(byte: u8) -> TcpFlags {
    TcpFlags {
        fin: byte & 0x01 != 0,
        syn: byte & 0x02 != 0,
        rst: byte & 0x04 != 0,
        psh: byte & 0x08 != 0,
        ack: byte & 0x10 != 0,
        urg: byte & 0x20 != 0,
        ece: byte & 0x40 != 0,
        cwr: byte & 0x80 != 0,
    }
}

/// The flag byte that encodes the given flags.
pub open spec fn spec_byte_of_flags(f: TcpFlags) -> u8 {
    (if f.fin { 0x01u8 } else { 0u8 }) | (if f.syn { 0x02u8 } else { 0u8 })
        | (if f.rst { 0x04u8 } else { 0u8 }) | (if f.psh { 0x08u8 } else { 0u8 })
        | (if f.ack { 0x10u8 } else { 0u8 }) | (if f.urg { 0x20u8 } else { 0u8 })
        | (if f.ece { 0x40u8 } else { 0u8 }) | (if f.cwr { 0x80u8 } else { 0u8 })
}

impl TcpFlags {
    /// Decode a TCP flag byte.
    pub fn from_byte(byte: u8) -> (r: TcpFlags)
        ensures
            r == spec_flags_of_byte(byte),
    {
        TcpFlags {
            fin: byte & 0x01 != 0,
            syn: byte & 0x02 != 0,
            rst: byte & 0x04 != 0,
            psh: byte & 0x08 != 0,
            ack: byte & 0x10 != 0,
            urg: byte & 0x20 != 0,
            ece: byte & 0x40 != 0,
            cwr: byte & 0x80 != 0,
        }
    }

    /// Encode the flags as a TCP flag byte.
    pub fn to_byte(self) -> (r: u8)
        ensures
            r == spec_byte_of_flags(self),
    {
        let mut byte: u8 = 0;
        if self.fin {
            byte = byte | 0x01;
        }
        if self.syn {
            byte = byte | 0x02;
        }
        if self.rst {
            byte = byte | 0x04;
        }
        if self.psh {
            byte = byte | 0x08;
        }
        if self.ack {
            byte = byte | 0x10;
        }
        if self.urg {
            byte = byte | 0x20;
        }
        if self.ece {
            byte = byte | 0x40;
        }
        if self.cwr {
            byte = byte | 0x80;
        }
        proof {
            lemma_flag_byte_build(self);
        }
        byte
    }
}

/// Building the flag byte bit by bit, in flag order, yields
/// `spec_byte_of_flags`.
proof fn lemma_flag_byte_build(f: TcpFlags)
    ensures
        spec_byte_of_flags(f) == {
            let b0: u8 = 0u8;
            let b1: u8 = if f.fin { b0 | 0x01 } else { b0 };
            let b2: u8 = if f.syn { b1 | 0x02 } else { b1 };
            let b3: u8 = if f.rst { b2 | 0x04 } else { b2 };
            let b4: u8 = if f.psh { b3 | 0x08 } else { b3 };
            let b5: u8 = if f.ack { b4 | 0x10 } else { b4 };
            let b6: u8 = if f.urg { b5 | 0x20 } else { b5 };
            let b7: u8 = if f.ece { b6 | 0x40 } else { b6 };
            if f.cwr { b7 | 0x80 } else { b7 }
        },
{
    let fin = f.fin;
    let syn = f.syn;
    let rst = f.rst;
    let psh = f.psh;
    let ack = f.ack;
    let urg = f.urg;
    let ece = f.ece;
    let cwr = f.cwr;
    assert((if fin { 0x01u8 } else { 0u8 }) | (if syn { 0x02u8 } else { 0u8 })
        | (if rst { 0x04u8 } else { 0u8 }) | (if psh { 0x08u8 } else { 0u8 })
        | (if ack { 0x10u8 } else { 0u8 }) | (if urg { 0x20u8 } else { 0u8 })
        | (if ece { 0x40u8 } else { 0u8 }) | (if cwr { 0x80u8 } else { 0u8 }) == {
        let b0: u8 = 0u8;
        let b1: u8 = if fin { b0 | 0x01 } else { b0 };
        let b2: u8 = if syn { b1 | 0x02 } else { b1 };
        let b3: u8 = if rst { b2 | 0x04 } else { b2 };
        let b4: u8 = if psh { b3 | 0x08 } else { b3 };
        let b5: u8 = if ack { b4 | 0x10 } else { b4 };
        let b6: u8 = if urg { b5 | 0x20 } else { b5 };
        let b7: u8 = if ece { b6 | 0x40 } else { b6 };
        if cwr { b7 | 0x80 } else { b7 }
    }) by (bit_vector);
}

/// Decoding an encoded flag byte yields the flags back.
pub proof fn lemma_tcp_flags_roundtrip(f: TcpFlags)
    ensures
        spec_flags_of_byte(spec_byte_of_flags(f)) == f,
{
    let b = spec_byte_of_flags(f);
    let fin = f.fin;
    let syn = f.syn;
    let rst = f.rst;
    let psh = f.psh;
    let ack = f.ack;
    let urg = f.urg;
    let ece = f.ece;
    let cwr = f.cwr;
    assert({
        let b: u8 = (if fin { 0x01u8 } else { 0u8 }) | (if syn { 0x02u8 } else { 0u8 })
            | (if rst { 0x04u8 } else { 0u8 }) | (if psh { 0x08u8 } else { 0u8 })
            | (if ack { 0x10u8 } else { 0u8 }) | (if urg { 0x20u8 } else { 0u8 })
            | (if ece { 0x40u8 } else { 0u8 }) | (if cwr { 0x80u8 } else { 0u8 });
        (b & 0x01 != 0) == fin && (b & 0x02 != 0) == syn && (b & 0x04 != 0) == rst && (b & 0x08
            != 0) == psh && (b & 0x10 != 0) == ack && (b & 0x20 != 0) == urg && (b & 0x40 != 0)
            == ece && (b & 0x80 != 0) == cwr
    }) by (bit_vector);
}

} // verus!

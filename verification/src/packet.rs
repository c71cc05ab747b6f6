//! The packet model: a parsed view over a raw IP packet buffer, with the
//! surgical mutators the bypass strategies need.
//!
//! A `Packet` owns its byte buffer together with metadata derived from
//! parsing.  Well-formedness (`wf`) ties every metadata field to the
//! bytes, and every mutator preserves it, so a packet that leaves the
//! library is always consistent with its buffer.

use crate::addr::{IpAddress, Ipv4Address};
use crate::error::Error;
use crate::types::{Direction, IpVersion, Protocol, TcpFlags, spec_flags_of_byte, spec_protocol_of};
use crate::util::{read_be16, read_be32, spec_be16, spec_be32};
use vstd::prelude::*;
use vstd::slice::slice_subrange;

verus! {

/// Maximum packet size the engine handles.
pub const MAX_PACKET_SIZE: usize = 9016;

/// Maximum hostname length (DNS standard).
pub const MAX_HOSTNAME_LEN: usize = 253;

/// A parsed network packet.
///
/// All fields are public so that contracts can speak about them; the
/// `wf` predicate states their consistency with `data`, and every
/// library operation preserves it.
#[derive(Debug, Clone)]
pub struct Packet {
    /// Raw packet bytes, starting at the IP header.
    pub data: Vec<u8>,
    /// Packet direction.
    pub direction: Direction,
    /// IP version.
    pub ip_version: IpVersion,
    /// Transport protocol.
    pub protocol: Protocol,
    /// Source IP address.
    pub src_addr: IpAddress,
    /// Destination IP address.
    pub dst_addr: IpAddress,
    /// Source port; 0 unless TCP or UDP.
    pub src_port: u16,
    /// Destination port; 0 unless TCP or UDP.
    pub dst_port: u16,
    /// IP header length in bytes.
    pub ip_header_len: usize,
    /// Transport header length in bytes; 0 unless TCP or UDP.
    pub transport_header_len: usize,
    /// TCP flags, when the packet is TCP.
    pub tcp_flags: Option<TcpFlags>,
    /// TTL (IPv4) or hop limit (IPv6).
    pub ttl: u8,
    /// IP identification, IPv4 only.
    pub ip_id: Option<u16>,
    /// Marks an engine-synthesised decoy, which no strategy touches again.
    pub is_fake: bool,
}

/// The IP header length that an IPv4 first byte encodes.
pub open spec fn spec_ihl(d: Seq<u8>) -> int {
    (d[0] % 16) * 4
}

/// The 128-bit value of the 16 address bytes at `i`, big-endian.
pub open spec fn spec_v6_addr(d: Seq<u8>, i: int) -> int {
    spec_be32(d, i) * 0x1000000000000000000000000 + spec_be32(d, i + 4) * 0x10000000000000000
        + spec_be32(d, i + 8) * 0x100000000 + spec_be32(d, i + 12)
}

impl Packet {
    /// Offset of the payload: IP header plus transport header.
    pub open spec fn spec_payload_off(self) -> int {
        self.ip_header_len + self.transport_header_len
    }

    /// The payload bytes: everything after the headers, empty when the
    /// headers fill the buffer.
    pub open spec fn spec_payload(self) -> Seq<u8> {
        if self.spec_payload_off() < self.data@.len() {
            self.data@.subrange(self.spec_payload_off(), self.data@.len() as int)
        } else {
            Seq::empty()
        }
    }

    /// Consistency of the IPv4 metadata with the buffer.
    pub open spec fn wf_v4(self) -> bool {
        let d = self.data@;
        &&& d.len() >= 20
        &&& d[0] / 16 == 4
        &&& self.ip_header_len == spec_ihl(d)
        &&& self.ip_header_len >= 20
        &&& d.len() >= self.ip_header_len
        &&& self.ttl == d[8]
        &&& self.protocol == spec_protocol_of(d[9])
        &&& self.ip_id == Some((spec_be16(d, 4) as u16))
        &&& self.src_addr == IpAddress::V4(
            Ipv4Address { o0: d[12], o1: d[13], o2: d[14], o3: d[15] },
        )
        &&& self.dst_addr == IpAddress::V4(
            Ipv4Address { o0: d[16], o1: d[17], o2: d[18], o3: d[19] },
        )
    }

    /// Consistency of the IPv6 metadata with the buffer.
    pub open spec fn wf_v6(self) -> bool {
        let d = self.data@;
        &&& d.len() >= 40
        &&& d[0] / 16 == 6
        &&& self.ip_header_len == 40
        &&& self.ttl == d[7]
        &&& self.protocol == spec_protocol_of(d[6])
        &&& self.ip_id is None
        &&& self.src_addr == IpAddress::V6((spec_v6_addr(d, 8) as u128))
        &&& self.dst_addr == IpAddress::V6((spec_v6_addr(d, 24) as u128))
    }

    /// Consistency of the transport metadata with the buffer.
    pub open spec fn wf_transport(self) -> bool {
        let d = self.data@;
        let off = self.ip_header_len as int;
        match self.protocol {
            Protocol::Tcp => {
                &&& d.len() >= off + 20
                &&& self.src_port == spec_be16(d, off)
                &&& self.dst_port == spec_be16(d, off + 2)
                &&& self.transport_header_len == (d[off + 12] / 16) * 4
                &&& self.transport_header_len >= 20
                &&& d.len() >= off + self.transport_header_len
                &&& self.tcp_flags == Some(spec_flags_of_byte(d[off + 13]))
            },
            Protocol::Udp => {
                &&& d.len() >= off + 8
                &&& self.src_port == spec_be16(d, off)
                &&& self.dst_port == spec_be16(d, off + 2)
                &&& self.transport_header_len == 8
                &&& self.tcp_flags is None
            },
            _ => {
                &&& self.src_port == 0
                &&& self.dst_port == 0
                &&& self.transport_header_len == 0
                &&& self.tcp_flags is None
            },
        }
    }

    /// Well-formedness: every metadata field agrees with the buffer.
    pub open spec fn wf(self) -> bool {
        &&& (match self.ip_version {
            IpVersion::V4 => self.wf_v4(),
            IpVersion::V6 => self.wf_v6(),
        })
        &&& self.wf_transport()
    }

    /// Whether a buffer parses successfully.
    ///
    /// A buffer is accepted when it is long enough for its IP header,
    /// the version nibble is 4 or 6, and — for TCP and UDP — long
    /// enough for the transport header it declares.
    pub open spec fn spec_parse_ok(d: Seq<u8>) -> bool {
        &&& d.len() >= 20
        &&& {
            ||| {
                &&& d[0] / 16 == 4
                &&& spec_ihl(d) >= 20
                &&& d.len() >= spec_ihl(d)
                &&& Self::spec_transport_ok(d, spec_ihl(d), spec_protocol_of(d[9]))
            }
            ||| {
                &&& d[0] / 16 == 6
                &&& d.len() >= 40
                &&& Self::spec_transport_ok(d, 40, spec_protocol_of(d[6]))
            }
        }
    }

    /// Whether the transport header fits the buffer.
    pub open spec fn spec_transport_ok(d: Seq<u8>, off: int, proto: Protocol) -> bool {
        match proto {
            Protocol::Tcp => d.len() >= off + 20 && (d[off + 12] / 16) * 4 >= 20 && d.len() >= off
                + (d[off + 12] / 16) * 4,
            Protocol::Udp => d.len() >= off + 8,
            _ => true,
        }
    }

    /// Parse a raw buffer into a packet.
    ///
    /// Succeeds exactly on the buffers `spec_parse_ok` accepts; the
    /// resulting packet is well formed, keeps the buffer unchanged, and
    /// is not marked fake.
    pub fn from_bytes(data: &Vec<u8>, direction: Direction) -> (r: Result<Packet, Error>)
        ensures
            r is Ok <==> Self::spec_parse_ok(data@),
            r matches Ok(p) ==> p.wf() && p.data@ == data@ && p.direction == direction
                && !p.is_fake,
            data@.len() < 20 ==> (r matches Err(e) && (e matches Error::PacketTooSmall {
                expected: 20,
                actual,
            } && actual == data@.len())),
            data@.len() >= 20 && data@[0] / 16 != 4 && data@[0] / 16 != 6 ==> (r matches Err(e)
                && (e matches Error::UnsupportedVersion { version } && version == data@[0]
                / 16)),
    {
        if data.len() < 20 {
            return Err(Error::PacketTooSmall { expected: 20, actual: data.len() });
        }
        let b0 = data[0];
        let version = b0 >> 4;
        assert(version == b0 / 16) by (bit_vector)
            requires
                version == b0 >> 4,
        ;
        if version == 4 {
            Self::parse_ipv4(data, direction)
        } else if version == 6 {
            Self::parse_ipv6(data, direction)
        } else {
            Err(Error::UnsupportedVersion { version })
        }
    }

    /// Parse the IPv4 header and then the transport header.
    fn parse_ipv4(data: &Vec<u8>, direction: Direction) -> (r: Result<Packet, Error>)
        requires
            data@.len() >= 20,
            data@[0] / 16 == 4,
        ensures
            r is Ok <==> Self::spec_parse_ok(data@),
            r matches Ok(p) ==> p.wf() && p.data@ == data@ && p.direction == direction
                && !p.is_fake,
    {
        let b0 = data[0];
        let ihl = ((b0 & 0x0F) as usize) * 4;
        assert(b0 & 0x0F == b0 % 16) by (bit_vector);
        if ihl < 20 {
            return Err(Error::packet_parse("IPv4 header length field too small"));
        }
        if data.len() < ihl {
            return Err(Error::PacketTooSmall { expected: ihl, actual: data.len() });
        }
        let protocol = Protocol::from_u8(data[9]);
        let (src_port, dst_port, transport_header_len, tcp_flags) = match Self::parse_transport(
            data,
            ihl,
            protocol,
        ) {
            Ok(t) => t,
            Err(e) => {
                return Err(e);
            },
        };
        let p = Packet {
            data: data.clone(),
            direction,
            ip_version: IpVersion::V4,
            protocol,
            src_addr: IpAddress::V4(
                Ipv4Address { o0: data[12], o1: data[13], o2: data[14], o3: data[15] },
            ),
            dst_addr: IpAddress::V4(
                Ipv4Address { o0: data[16], o1: data[17], o2: data[18], o3: data[19] },
            ),
            src_port,
            dst_port,
            ip_header_len: ihl,
            transport_header_len,
            tcp_flags,
            ttl: data[8],
            ip_id: Some(read_be16(data, 4)),
            is_fake: false,
        };
        Ok(p)
    }

    /// Parse the fixed 40-byte IPv6 header and then the transport header.
    fn parse_ipv6(data: &Vec<u8>, direction: Direction) -> (r: Result<Packet, Error>)
        requires
            data@.len() >= 20,
            data@[0] / 16 == 6,
        ensures
            r is Ok <==> Self::spec_parse_ok(data@),
            r matches Ok(p) ==> p.wf() && p.data@ == data@ && p.direction == direction
                && !p.is_fake,
    {
        if data.len() < 40 {
            return Err(Error::PacketTooSmall { expected: 40, actual: data.len() });
        }
        let protocol = Protocol::from_u8(data[6]);
        let (src_port, dst_port, transport_header_len, tcp_flags) = match Self::parse_transport(
            data,
            40,
            protocol,
        ) {
            Ok(t) => t,
            Err(e) => {
                return Err(e);
            },
        };
        let src_hi = read_be32(data, 8);
        let src_h2 = read_be32(data, 12);
        let src_h3 = read_be32(data, 16);
        let src_lo = read_be32(data, 20);
        let dst_hi = read_be32(data, 24);
        let dst_h2 = read_be32(data, 28);
        let dst_h3 = read_be32(data, 32);
        let dst_lo = read_be32(data, 36);
        let src: u128 = (src_hi as u128) * 0x1000000000000000000000000 + (src_h2 as u128)
            * 0x10000000000000000 + (src_h3 as u128) * 0x100000000 + (src_lo as u128);
        let dst: u128 = (dst_hi as u128) * 0x1000000000000000000000000 + (dst_h2 as u128)
            * 0x10000000000000000 + (dst_h3 as u128) * 0x100000000 + (dst_lo as u128);
        let p = Packet {
            data: data.clone(),
            direction,
            ip_version: IpVersion::V6,
            protocol,
            src_addr: IpAddress::V6(src),
            dst_addr: IpAddress::V6(dst),
            src_port,
            dst_port,
            ip_header_len: 40,
            transport_header_len,
            tcp_flags,
            ttl: data[7],
            ip_id: None,
            is_fake: false,
        };
        Ok(p)
    }

    /// Parse the TCP or UDP header at `off`; other protocols have no
    /// transport header here.
    fn parse_transport(data: &Vec<u8>, off: usize, protocol: Protocol) -> (r: Result<
        (u16, u16, usize, Option<TcpFlags>),
        Error,
    >)
        requires
            off + 60 <= usize::MAX,
            off <= data@.len(),
        ensures
            r is Ok <==> Self::spec_transport_ok(data@, off as int, protocol),
            r matches Ok((sp, dp, thl, fl)) ==> match protocol {
                Protocol::Tcp => sp == spec_be16(data@, off as int) && dp == spec_be16(
                    data@,
                    off + 2,
                ) && thl == (data@[off + 12] / 16) * 4 && thl >= 20 && data@.len() >= off + thl
                    && fl == Some(spec_flags_of_byte(data@[off + 13])),
                Protocol::Udp => data@.len() >= off + 8 && sp == spec_be16(data@, off as int)
                    && dp == spec_be16(data@, off + 2) && thl == 8 && fl is None,
                _ => sp == 0 && dp == 0 && thl == 0 && fl is None,
            },
    {
        match protocol {
            Protocol::Tcp => {
                if data.len() < off + 20 {
                    return Err(
                        Error::PacketTooSmall { expected: off + 20, actual: data.len() },
                    );
                }
                let src_port = read_be16(data, off);
                let dst_port = read_be16(data, off + 2);
                let b12 = data[off + 12];
                let doff = b12 >> 4;
                assert(doff == b12 / 16) by (bit_vector)
                    requires
                        doff == b12 >> 4,
                ;
                let thl = (doff as usize) * 4;
                if thl < 20 {
                    return Err(Error::packet_parse("TCP data offset field too small"));
                }
                if data.len() < off + thl {
                    return Err(
                        Error::PacketTooSmall { expected: off + thl, actual: data.len() },
                    );
                }
                let flags = TcpFlags::from_byte(data[off + 13]);
                Ok((src_port, dst_port, thl, Some(flags)))
            },
            Protocol::Udp => {
                if data.len() < off + 8 {
                    return Err(Error::PacketTooSmall { expected: off + 8, actual: data.len() });
                }
                let src_port = read_be16(data, off);
                let dst_port = read_be16(data, off + 2);
                Ok((src_port, dst_port, 8, None))
            },
            _ => Ok((0, 0, 0, None)),
        }
    }

    /// The payload: the bytes after the IP and transport headers.
    pub fn payload(&self) -> (r: &[u8])
        requires
            self.wf(),
        ensures
            r@ == self.spec_payload(),
    {
        let off = self.ip_header_len + self.transport_header_len;
        if off < self.data.len() {
            slice_subrange(self.data.as_slice(), off, self.data.len())
        } else {
            let empty: &[u8] = slice_subrange(self.data.as_slice(), 0, 0);
            proof {
                assert(empty@ =~= Seq::<u8>::empty());
            }
            empty
        }
    }

    /// Length of the payload.
    pub fn payload_len(&self) -> (r: usize)
        requires
            self.wf(),
        ensures
            r == self.spec_payload().len(),
    {
        let off = self.ip_header_len + self.transport_header_len;
        if off < self.data.len() {
            self.data.len() - off
        } else {
            0
        }
    }

    /// Whether the packet is outbound.
    pub fn is_outbound(&self) -> (r: bool)
        ensures
            r == (self.direction == Direction::Outbound),
    {
        matches!(self.direction, Direction::Outbound)
    }

    /// Whether the packet is inbound.
    pub fn is_inbound(&self) -> (r: bool)
        ensures
            r == (self.direction == Direction::Inbound),
    {
        matches!(self.direction, Direction::Inbound)
    }

    /// Whether this is a TCP packet.
    pub fn is_tcp(&self) -> (r: bool)
        ensures
            r == (self.protocol == Protocol::Tcp),
    {
        matches!(self.protocol, Protocol::Tcp)
    }

    /// Whether this is a UDP packet.
    pub fn is_udp(&self) -> (r: bool)
        ensures
            r == (self.protocol == Protocol::Udp),
    {
        matches!(self.protocol, Protocol::Udp)
    }

    /// Whether this is IPv4.
    pub fn is_ipv4(&self) -> (r: bool)
        ensures
            r == (self.ip_version == IpVersion::V4),
    {
        matches!(self.ip_version, IpVersion::V4)
    }

    /// Whether this is IPv6.
    pub fn is_ipv6(&self) -> (r: bool)
        ensures
            r == (self.ip_version == IpVersion::V6),
    {
        matches!(self.ip_version, IpVersion::V6)
    }

    /// Whether the TCP SYN flag is set.
    pub fn is_syn(&self) -> (r: bool)
        ensures
            r == (self.tcp_flags matches Some(f) && f.syn),
    {
        match self.tcp_flags {
            Some(f) => f.syn,
            None => false,
        }
    }

    /// Whether the TCP ACK flag is set.
    pub fn is_ack(&self) -> (r: bool)
        ensures
            r == (self.tcp_flags matches Some(f) && f.ack),
    {
        match self.tcp_flags {
            Some(f) => f.ack,
            None => false,
        }
    }

    /// Whether the TCP RST flag is set.
    pub fn is_rst(&self) -> (r: bool)
        ensures
            r == (self.tcp_flags matches Some(f) && f.rst),
    {
        match self.tcp_flags {
            Some(f) => f.rst,
            None => false,
        }
    }

    /// Whether this is a SYN-ACK packet.
    pub fn is_syn_ack(&self) -> (r: bool)
        ensures
            r == (self.tcp_flags matches Some(f) && f.syn && f.ack),
    {
        match self.tcp_flags {
            Some(f) => f.syn && f.ack,
            None => false,
        }
    }

    /// Whether this looks like HTTP traffic by port.
    pub fn is_http(&self) -> (r: bool)
        ensures
            r == (self.protocol == Protocol::Tcp && (self.dst_port == 80 || self.src_port == 80)),
    {
        self.is_tcp() && (self.dst_port == 80 || self.src_port == 80)
    }

    /// Whether this looks like HTTPS traffic by port.
    pub fn is_https(&self) -> (r: bool)
        ensures
            r == (self.protocol == Protocol::Tcp && (self.dst_port == 443 || self.src_port
                == 443)),
    {
        self.is_tcp() && (self.dst_port == 443 || self.src_port == 443)
    }

    /// The raw packet bytes.
    pub fn as_bytes(&self) -> (r: &[u8])
        ensures
            r@ == self.data@,
    {
        self.data.as_slice()
    }

    /// Total packet length in bytes.
    pub fn len(&self) -> (r: usize)
        ensures
            r == self.data@.len(),
    {
        self.data.len()
    }

    /// Whether the buffer is empty.
    pub fn is_empty(&self) -> (r: bool)
        ensures
            r == (self.data@.len() == 0),
    {
        self.data.is_empty()
    }

    /// Metadata equality up to the TTL: two packets agree on direction,
    /// version, protocol, addresses, ports, header lengths, TCP flags,
    /// IP identification and the fake marker.
    pub open spec fn spec_same_meta_except_ttl(a: Packet, b: Packet) -> bool {
        &&& a.direction == b.direction
        &&& a.ip_version == b.ip_version
        &&& a.protocol == b.protocol
        &&& a.src_addr == b.src_addr
        &&& a.dst_addr == b.dst_addr
        &&& a.src_port == b.src_port
        &&& a.dst_port == b.dst_port
        &&& a.ip_header_len == b.ip_header_len
        &&& a.transport_header_len == b.transport_header_len
        &&& a.tcp_flags == b.tcp_flags
        &&& a.ip_id == b.ip_id
        &&& a.is_fake == b.is_fake
    }

    /// Metadata equality: `spec_same_meta_except_ttl` and the TTL too.
    pub open spec fn spec_same_meta(a: Packet, b: Packet) -> bool {
        &&& Self::spec_same_meta_except_ttl(a, b)
        &&& a.ttl == b.ttl
    }

    /// The TCP sequence number stored in the buffer, when present.
    pub open spec fn spec_tcp_seq(self) -> Option<u32> {
        if self.protocol != Protocol::Tcp {
            None
        } else if self.ip_header_len + 8 <= self.data@.len() {
            Some((spec_be32(self.data@, self.ip_header_len + 4) as u32))
        } else {
            None
        }
    }

    /// The TCP acknowledgment number stored in the buffer, when present.
    pub open spec fn spec_tcp_ack(self) -> Option<u32> {
        if self.protocol != Protocol::Tcp {
            None
        } else if self.ip_header_len + 12 <= self.data@.len() {
            Some((spec_be32(self.data@, self.ip_header_len + 8) as u32))
        } else {
            None
        }
    }

    /// The TCP sequence number, when this is a TCP packet.
    pub fn tcp_seq(&self) -> (r: Option<u32>)
        requires
            self.wf(),
        ensures
            r == self.spec_tcp_seq(),
    {
        if !self.is_tcp() {
            return None;
        }
        let offset = self.ip_header_len + 4;
        if self.data.len() >= offset + 4 {
            Some(read_be32(&self.data, offset))
        } else {
            None
        }
    }

    /// The TCP acknowledgment number, when this is a TCP packet.
    pub fn tcp_ack_num(&self) -> (r: Option<u32>)
        requires
            self.wf(),
        ensures
            r == self.spec_tcp_ack(),
    {
        if !self.is_tcp() {
            return None;
        }
        let offset = self.ip_header_len + 8;
        if self.data.len() >= offset + 4 {
            Some(read_be32(&self.data, offset))
        } else {
            None
        }
    }

    /// The buffer position of the TTL or hop-limit byte.
    pub open spec fn spec_ttl_index(self) -> int {
        if self.ip_version == IpVersion::V4 {
            8
        } else {
            7
        }
    }

    /// Set the TTL (IPv4) or hop limit (IPv6), in the buffer and in the
    /// cached field.
    pub fn set_ttl(&mut self, ttl: u8)
        requires
            old(self).wf(),
        ensures
            final(self).wf(),
            final(self).data@ == old(self).data@.update(old(self).spec_ttl_index(), ttl),
            final(self).ttl == ttl,
            Self::spec_same_meta_except_ttl(*old(self), *final(self)),
            final(self).spec_payload() == old(self).spec_payload(),
            final(self).spec_tcp_seq() == old(self).spec_tcp_seq(),
            final(self).spec_tcp_ack() == old(self).spec_tcp_ack(),
    {
        match self.ip_version {
            IpVersion::V4 => self.data.set(8, ttl),
            IpVersion::V6 => self.data.set(7, ttl),
        }
        self.ttl = ttl;
        proof {
            lemma_payload_update_below(*old(self), *self);
        }
    }

    /// Write a TCP sequence number, big-endian, at its header position.
    /// Does nothing on a non-TCP packet.
    pub fn set_tcp_seq(&mut self, seq: u32)
        requires
            old(self).wf(),
        ensures
            final(self).wf(),
            Self::spec_same_meta(*old(self), *final(self)),
            final(self).spec_payload() == old(self).spec_payload(),
            old(self).protocol == Protocol::Tcp ==> final(self).data@ == crate::util::spec_set_be32(
                old(self).data@,
                old(self).ip_header_len + 4,
                seq,
            ) && final(self).spec_tcp_seq() == Some(seq) && final(self).spec_tcp_ack() == old(
                self,
            ).spec_tcp_ack(),
            old(self).protocol != Protocol::Tcp ==> *final(self) == *old(self),
    {
        if self.is_tcp() {
            let offset = self.ip_header_len + 4;
            crate::util::write_be32(&mut self.data, offset, seq);
            proof {
                lemma_payload_update_below(*old(self), *self);
            }
        }
    }

    /// Write a TCP acknowledgment number, big-endian, at its header
    /// position.  Does nothing on a non-TCP packet.
    pub fn set_tcp_ack(&mut self, ack: u32)
        requires
            old(self).wf(),
        ensures
            final(self).wf(),
            Self::spec_same_meta(*old(self), *final(self)),
            final(self).spec_payload() == old(self).spec_payload(),
            old(self).protocol == Protocol::Tcp ==> final(self).data@ == crate::util::spec_set_be32(
                old(self).data@,
                old(self).ip_header_len + 8,
                ack,
            ) && final(self).spec_tcp_ack() == Some(ack) && final(self).spec_tcp_seq() == old(
                self,
            ).spec_tcp_seq(),
            old(self).protocol != Protocol::Tcp ==> *final(self) == *old(self),
    {
        if self.is_tcp() {
            let offset = self.ip_header_len + 8;
            crate::util::write_be32(&mut self.data, offset, ack);
            proof {
                lemma_payload_update_below(*old(self), *self);
            }
        }
    }

    /// The buffer after zeroing the IPv4 header checksum and the TCP or
    /// UDP checksum field.
    pub open spec fn spec_zeroed_checksums(self) -> Seq<u8> {
        let off = self.ip_header_len as int;
        let d1 = if self.ip_version == IpVersion::V4 {
            self.data@.update(10, 0u8).update(11, 0u8)
        } else {
            self.data@
        };
        match self.protocol {
            Protocol::Tcp => d1.update(off + 16, 0u8).update(off + 17, 0u8),
            Protocol::Udp => d1.update(off + 6, 0u8).update(off + 7, 0u8),
            _ => d1,
        }
    }

    /// Zero the IPv4 header checksum and the TCP/UDP checksum fields so
    /// that the capture driver recomputes them on send.
    pub fn zero_checksums(&mut self)
        requires
            old(self).wf(),
        ensures
            final(self).wf(),
            final(self).data@ == old(self).spec_zeroed_checksums(),
            final(self).data@.len() == old(self).data@.len(),
            Self::spec_same_meta(*old(self), *final(self)),
            final(self).ttl == old(self).ttl,
            final(self).spec_payload() == old(self).spec_payload(),
            final(self).spec_tcp_seq() == old(self).spec_tcp_seq(),
            final(self).spec_tcp_ack() == old(self).spec_tcp_ack(),
    {
        if self.is_ipv4() {
            self.data.set(10, 0);
            self.data.set(11, 0);
        }
        let off = self.ip_header_len;
        if self.is_tcp() {
            self.data.set(off + 16, 0);
            self.data.set(off + 17, 0);
        } else if self.is_udp() {
            self.data.set(off + 6, 0);
            self.data.set(off + 7, 0);
        }
        proof {
            lemma_payload_update_below(*old(self), *self);
        }
    }

    /// Rewrite the IP length field from the buffer length: the IPv4
    /// total length, or the IPv6 payload length.  Both are written
    /// modulo 2^16, as a 16-bit field can hold no more.
    fn update_lengths(&mut self)
        requires
            old(self).wf(),
        ensures
            final(self).wf(),
            Self::spec_same_meta(*old(self), *final(self)),
            final(self).ttl == old(self).ttl,
            final(self).data@.len() == old(self).data@.len(),
            final(self).spec_payload() == old(self).spec_payload(),
            final(self).spec_tcp_seq() == old(self).spec_tcp_seq(),
            final(self).spec_tcp_ack() == old(self).spec_tcp_ack(),
            old(self).ip_version == IpVersion::V4 ==> final(self).data@
                == crate::util::spec_set_be16(
                old(self).data@,
                2,
                ((old(self).data@.len() % 65536) as u16),
            ),
            old(self).ip_version == IpVersion::V6 ==> final(self).data@
                == crate::util::spec_set_be16(
                old(self).data@,
                4,
                (((old(self).data@.len() - 40) % 65536) as u16),
            ),
    {
        let total_len = self.data.len();
        match self.ip_version {
            IpVersion::V4 => {
                crate::util::write_be16(&mut self.data, 2, (total_len % 65536) as u16);
            },
            IpVersion::V6 => {
                let payload_len = (total_len - 40) % 65536;
                crate::util::write_be16(&mut self.data, 4, payload_len as u16);
            },
        }
        proof {
            lemma_payload_update_below(*old(self), *self);
        }
    }

    /// Rewrite the IPv4 destination address, in the buffer and in the
    /// cached field.  Does nothing on an IPv6 packet.
    pub fn set_dst_addr_v4(&mut self, addr: crate::addr::Ipv4Address)
        requires
            old(self).wf(),
        ensures
            final(self).wf(),
            final(self).spec_payload() == old(self).spec_payload(),
            final(self).spec_tcp_seq() == old(self).spec_tcp_seq(),
            final(self).spec_tcp_ack() == old(self).spec_tcp_ack(),
            final(self).ttl == old(self).ttl,
            final(self).direction == old(self).direction,
            final(self).ip_version == old(self).ip_version,
            final(self).protocol == old(self).protocol,
            final(self).src_addr == old(self).src_addr,
            final(self).src_port == old(self).src_port,
            final(self).dst_port == old(self).dst_port,
            final(self).ip_header_len == old(self).ip_header_len,
            final(self).transport_header_len == old(self).transport_header_len,
            final(self).tcp_flags == old(self).tcp_flags,
            final(self).ip_id == old(self).ip_id,
            final(self).is_fake == old(self).is_fake,
            final(self).data@.len() == old(self).data@.len(),
            old(self).ip_version == IpVersion::V4 ==> final(self).dst_addr == IpAddress::V4(addr),
            old(self).ip_version == IpVersion::V6 ==> *final(self) == *old(self),
    {
        if self.is_ipv4() {
            self.data.set(16, addr.o0);
            self.data.set(17, addr.o1);
            self.data.set(18, addr.o2);
            self.data.set(19, addr.o3);
            self.dst_addr = IpAddress::V4(addr);
            proof {
                lemma_payload_update_below(*old(self), *self);
            }
        }
    }

    /// Rewrite the IPv4 source address, in the buffer and in the
    /// cached field.  Does nothing on an IPv6 packet.
    pub fn set_src_addr_v4(&mut self, addr: crate::addr::Ipv4Address)
        requires
            old(self).wf(),
        ensures
            final(self).wf(),
            final(self).spec_payload() == old(self).spec_payload(),
            final(self).spec_tcp_seq() == old(self).spec_tcp_seq(),
            final(self).spec_tcp_ack() == old(self).spec_tcp_ack(),
            final(self).ttl == old(self).ttl,
            final(self).direction == old(self).direction,
            final(self).ip_version == old(self).ip_version,
            final(self).protocol == old(self).protocol,
            final(self).dst_addr == old(self).dst_addr,
            final(self).src_port == old(self).src_port,
            final(self).dst_port == old(self).dst_port,
            final(self).ip_header_len == old(self).ip_header_len,
            final(self).transport_header_len == old(self).transport_header_len,
            final(self).tcp_flags == old(self).tcp_flags,
            final(self).ip_id == old(self).ip_id,
            final(self).is_fake == old(self).is_fake,
            final(self).data@.len() == old(self).data@.len(),
            old(self).ip_version == IpVersion::V4 ==> final(self).src_addr == IpAddress::V4(addr),
            old(self).ip_version == IpVersion::V6 ==> *final(self) == *old(self),
    {
        if self.is_ipv4() {
            self.data.set(12, addr.o0);
            self.data.set(13, addr.o1);
            self.data.set(14, addr.o2);
            self.data.set(15, addr.o3);
            self.src_addr = IpAddress::V4(addr);
            proof {
                lemma_payload_update_below(*old(self), *self);
            }
        }
    }

    /// Rewrite the transport destination port, in the buffer and in the
    /// cached field.  Does nothing on a packet that is neither TCP nor
    /// UDP.
    pub fn set_dst_port(&mut self, port: u16)
        requires
            old(self).wf(),
        ensures
            final(self).wf(),
            final(self).spec_payload() == old(self).spec_payload(),
            final(self).spec_tcp_seq() == old(self).spec_tcp_seq(),
            final(self).spec_tcp_ack() == old(self).spec_tcp_ack(),
            final(self).ttl == old(self).ttl,
            final(self).direction == old(self).direction,
            final(self).ip_version == old(self).ip_version,
            final(self).protocol == old(self).protocol,
            final(self).src_addr == old(self).src_addr,
            final(self).dst_addr == old(self).dst_addr,
            final(self).src_port == old(self).src_port,
            final(self).ip_header_len == old(self).ip_header_len,
            final(self).transport_header_len == old(self).transport_header_len,
            final(self).tcp_flags == old(self).tcp_flags,
            final(self).ip_id == old(self).ip_id,
            final(self).is_fake == old(self).is_fake,
            final(self).data@.len() == old(self).data@.len(),
            (old(self).protocol == Protocol::Tcp || old(self).protocol == Protocol::Udp)
                ==> final(self).dst_port == port,
            !(old(self).protocol == Protocol::Tcp || old(self).protocol == Protocol::Udp)
                ==> *final(self) == *old(self),
    {
        if self.is_tcp() || self.is_udp() {
            let off = self.ip_header_len;
            crate::util::write_be16(&mut self.data, off + 2, port);
            self.dst_port = port;
            proof {
                lemma_payload_update_below(*old(self), *self);
            }
        }
    }

    /// Rewrite the transport source port, in the buffer and in the
    /// cached field.  Does nothing on a packet that is neither TCP nor
    /// UDP.
    pub fn set_src_port(&mut self, port: u16)
        requires
            old(self).wf(),
        ensures
            final(self).wf(),
            final(self).spec_payload() == old(self).spec_payload(),
            final(self).spec_tcp_seq() == old(self).spec_tcp_seq(),
            final(self).spec_tcp_ack() == old(self).spec_tcp_ack(),
            final(self).ttl == old(self).ttl,
            final(self).direction == old(self).direction,
            final(self).ip_version == old(self).ip_version,
            final(self).protocol == old(self).protocol,
            final(self).src_addr == old(self).src_addr,
            final(self).dst_addr == old(self).dst_addr,
            final(self).dst_port == old(self).dst_port,
            final(self).ip_header_len == old(self).ip_header_len,
            final(self).transport_header_len == old(self).transport_header_len,
            final(self).tcp_flags == old(self).tcp_flags,
            final(self).ip_id == old(self).ip_id,
            final(self).is_fake == old(self).is_fake,
            final(self).data@.len() == old(self).data@.len(),
            (old(self).protocol == Protocol::Tcp || old(self).protocol == Protocol::Udp)
                ==> final(self).src_port == port,
            !(old(self).protocol == Protocol::Tcp || old(self).protocol == Protocol::Udp)
                ==> *final(self) == *old(self),
    {
        if self.is_tcp() || self.is_udp() {
            let off = self.ip_header_len;
            crate::util::write_be16(&mut self.data, off, port);
            self.src_port = port;
            proof {
                lemma_payload_update_below(*old(self), *self);
            }
        }
    }

    /// Overwrite one payload byte in place.
    pub fn set_payload_byte(&mut self, k: usize, v: u8)
        requires
            old(self).wf(),
            k < old(self).spec_payload().len(),
        ensures
            final(self).wf(),
            Self::spec_same_meta(*old(self), *final(self)),
            final(self).ttl == old(self).ttl,
            final(self).data@.len() == old(self).data@.len(),
            final(self).spec_payload() == old(self).spec_payload().update(k as int, v),
            final(self).spec_tcp_seq() == old(self).spec_tcp_seq(),
            final(self).spec_tcp_ack() == old(self).spec_tcp_ack(),
    {
        let n = self.data.len();
        let off = self.ip_header_len + self.transport_header_len;
        assert(off + k < n);
        self.data.set(off + k, v);
        proof {
            assert(final(self).spec_payload() =~= old(self).spec_payload().update(k as int, v));
        }
    }

    /// Mark or unmark the packet as an engine-synthesised decoy.
    pub fn set_is_fake(&mut self, is_fake: bool)
        requires
            old(self).wf(),
        ensures
            final(self).wf(),
            *final(self) == (Packet { is_fake, ..*old(self) }),
    {
        self.is_fake = is_fake;
    }

    /// A packet with this packet's headers and the given payload, with
    /// the IP length field rewritten.  Checksum fields are copied as
    /// they are.
    fn fragment_with_payload(&self, part: &[u8]) -> (r: Packet)
        requires
            self.wf(),
            self.ip_header_len + self.transport_header_len + part@.len() <= usize::MAX,
        ensures
            r.wf(),
            Self::spec_same_meta(*self, r),
            r.ttl == self.ttl,
            r.data@.len() == self.spec_payload_off() + part@.len(),
            r.spec_payload() == part@,
            r.spec_tcp_seq() == self.spec_tcp_seq(),
            r.spec_tcp_ack() == self.spec_tcp_ack(),
            self.ip_version == IpVersion::V4 ==> spec_be16(r.data@, 2) == r.data@.len() % 65536,
            self.ip_version == IpVersion::V6 ==> spec_be16(r.data@, 4) == (r.data@.len() - 40)
                % 65536,
            forall|i: int|
                0 <= i < self.spec_payload_off() && i != Self::spec_len_field_pos(*self) && i
                    != Self::spec_len_field_pos(*self) + 1 ==> r.data@[i] == self.data@[i],
    {
        let hdr = self.ip_header_len + self.transport_header_len;
        let mut nd: Vec<u8> = Vec::new();
        let header = slice_subrange(self.data.as_slice(), 0, hdr);
        nd.extend_from_slice(header);
        nd.extend_from_slice(part);
        let mut p = Packet {
            data: nd,
            direction: self.direction,
            ip_version: self.ip_version,
            protocol: self.protocol,
            src_addr: self.src_addr,
            dst_addr: self.dst_addr,
            src_port: self.src_port,
            dst_port: self.dst_port,
            ip_header_len: self.ip_header_len,
            transport_header_len: self.transport_header_len,
            tcp_flags: self.tcp_flags,
            ttl: self.ttl,
            ip_id: self.ip_id,
            is_fake: self.is_fake,
        };
        proof {
            assert forall|i: int| 0 <= i < hdr implies p.data@[i] == self.data@[i] by {
                assert(p.data@[i] == self.data@.subrange(0, hdr as int)[i]);
            }
            if (hdr as int) < p.data@.len() {
                assert(p.spec_payload() =~= part@);
            } else {
                assert(p.spec_payload() =~= part@);
            }
        }
        p.update_lengths();
        p
    }

    /// The position of the IP length field this library rewrites: the
    /// IPv4 total length at byte 2, the IPv6 payload length at byte 4.
    pub open spec fn spec_len_field_pos(p: Packet) -> int {
        if p.ip_version == IpVersion::V4 {
            2
        } else {
            4
        }
    }

    /// Split the packet at a payload offset into two packets that share
    /// its headers.
    ///
    /// The first carries the payload before `offset`, the second the
    /// rest; the second's TCP sequence number is advanced by `offset`
    /// modulo 2^32, and both IP length fields are rewritten.  Fails
    /// exactly when `offset` is zero or not inside the payload.
    #[verifier::rlimit(100)]
    pub fn split_at_payload(&self, offset: usize) -> (r: Result<(Packet, Packet), Error>)
        requires
            self.wf(),
        ensures
            r is Ok <==> 0 < offset < self.spec_payload().len(),
            r matches Err(e) ==> (e matches Error::SplitOutOfRange { offset: o, payload_len }
                && o == offset && payload_len == self.spec_payload().len()),
            r matches Ok((a, b)) ==> {
                &&& a.wf() && b.wf()
                &&& Self::spec_same_meta(*self, a) && Self::spec_same_meta(*self, b)
                &&& a.ttl == self.ttl && b.ttl == self.ttl
                &&& a.spec_payload() == self.spec_payload().take(offset as int)
                &&& b.spec_payload() == self.spec_payload().skip(offset as int)
                &&& a.data@.len() == self.spec_payload_off() + offset
                &&& b.data@.len() == self.spec_payload_off() + (self.spec_payload().len()
                    - offset)
                &&& a.spec_tcp_seq() == self.spec_tcp_seq()
                &&& (self.protocol == Protocol::Tcp ==> (b.spec_tcp_seq() matches Some(s) && (
                self.spec_tcp_seq() matches Some(s0) && s == ((s0 + offset) % 0x1_0000_0000))))
                &&& (self.ip_version == IpVersion::V4 ==> spec_be16(a.data@, 2) == a.data@.len()
                    % 65536 && spec_be16(b.data@, 2) == b.data@.len() % 65536)
                &&& (self.ip_version == IpVersion::V6 ==> spec_be16(a.data@, 4) == (a.data@.len()
                    - 40) % 65536 && spec_be16(b.data@, 4) == (b.data@.len() - 40) % 65536)
            },
    {
        let plen = self.payload_len();
        if offset == 0 || offset >= plen {
            return Err(Error::SplitOutOfRange { offset, payload_len: plen });
        }
        let n = self.len();
        assert(self.spec_payload_off() + plen == n);
        let payload = self.payload();
        let first_part = slice_subrange(payload, 0, offset);
        let second_part = slice_subrange(payload, offset, plen);
        let first = self.fragment_with_payload(first_part);
        let mut second = self.fragment_with_payload(second_part);
        if let Some(seq) = second.tcp_seq() {
            let shift = ((offset as u64) % 0x1_0000_0000u64) as u32;
            let shifted = seq.wrapping_add(shift);
            second.set_tcp_seq(shifted);
            proof {
                let m: int = 0x1_0000_0000;
                let s0 = self.spec_tcp_seq()->0;
                assert(shift == (offset as int) % m);
                assert(shifted == (s0 + shift) % m);
                vstd::arithmetic::div_mod::lemma_add_mod_noop(s0 as int, offset as int, m);
                vstd::arithmetic::div_mod::lemma_small_mod(s0 as nat, m as nat);
                assert((s0 + shift) % m == (s0 + offset) % m);
            }
        }
        proof {
            assert(self.spec_payload().take(offset as int) =~= first.spec_payload());
            assert(self.spec_payload().skip(offset as int) =~= second.spec_payload());
        }
        Ok((first, second))
    }

    /// A packet with the same headers and a new payload.
    ///
    /// The IP length field is rewritten and the TCP or UDP checksum
    /// field zeroed so that the capture driver recomputes it.
    pub fn with_new_payload(&self, payload: &[u8]) -> (r: Result<Packet, Error>)
        requires
            self.wf(),
            self.ip_header_len + self.transport_header_len + payload@.len() <= usize::MAX,
        ensures
            r matches Ok(p) ==> {
                &&& p.wf()
                &&& Self::spec_same_meta(*self, p)
                &&& p.ttl == self.ttl
                &&& p.spec_payload() == payload@
                &&& p.data@.len() == self.spec_payload_off() + payload@.len()
                &&& p.spec_tcp_seq() == self.spec_tcp_seq()
                &&& p.spec_tcp_ack() == self.spec_tcp_ack()
                &&& (self.protocol == Protocol::Tcp ==> spec_be16(
                    p.data@,
                    self.ip_header_len + 16,
                ) == 0)
                &&& (self.protocol == Protocol::Udp ==> spec_be16(
                    p.data@,
                    self.ip_header_len + 6,
                ) == 0)
                &&& (self.ip_version == IpVersion::V4 ==> spec_be16(p.data@, 2) == p.data@.len()
                    % 65536)
                &&& (self.ip_version == IpVersion::V6 ==> spec_be16(p.data@, 4) == (p.data@.len()
                    - 40) % 65536)
            },
            r is Ok,
    {
        let mut p = self.fragment_with_payload(payload);
        let ghost p0 = p;
        let off = p.ip_header_len;
        if self.is_tcp() {
            p.data.set(off + 16, 0);
            p.data.set(off + 17, 0);
        } else if self.is_udp() {
            p.data.set(off + 6, 0);
            p.data.set(off + 7, 0);
        }
        proof {
            lemma_payload_update_below(p0, p);
        }
        Ok(p)
    }
}

/// Whether the first four payload bytes spell an HTTP request method
/// prefix: "GET ", "POST", "HEAD", "PUT ", "DELE", "CONN" or "OPTI".
pub open spec fn spec_is_http_request(p: Seq<u8>) -> bool {
    p.len() >= 4 && {
        ||| (p[0] == 71 && p[1] == 69 && p[2] == 84 && p[3] == 32)
        ||| (p[0] == 80 && p[1] == 79 && p[2] == 83 && p[3] == 84)
        ||| (p[0] == 72 && p[1] == 69 && p[2] == 65 && p[3] == 68)
        ||| (p[0] == 80 && p[1] == 85 && p[2] == 84 && p[3] == 32)
        ||| (p[0] == 68 && p[1] == 69 && p[2] == 76 && p[3] == 69)
        ||| (p[0] == 67 && p[1] == 79 && p[2] == 78 && p[3] == 78)
        ||| (p[0] == 79 && p[1] == 80 && p[2] == 84 && p[3] == 73)
    }
}

/// Whether the payload starts like a TLS ClientHello record: handshake
/// type 0x16, major version 3, minor version 1 or 3.
pub open spec fn spec_is_tls_client_hello(p: Seq<u8>) -> bool {
    p.len() >= 3 && p[0] == 0x16 && p[1] == 0x03 && (p[2] == 0x01 || p[2] == 0x03)
}

/// Whether `b` may occur in a hostname: digit, lower-case letter, dot
/// or hyphen.
pub open spec fn spec_hostname_byte(b: u8) -> bool {
    (48 <= b <= 57) || (97 <= b <= 122) || b == 46 || b == 45
}

/// Whether every byte of `s` may occur in a hostname.
pub open spec fn spec_hostname_bytes(s: Seq<u8>) -> bool {
    forall|i: int| 0 <= i < s.len() ==> spec_hostname_byte(s[i])
}

/// Whether a well-formed server-name extension begins at `i` in `p`:
/// extension type 0, consistent triple of lengths, hostname name type,
/// name of 3 to 253 hostname bytes that fits the payload.
pub open spec fn spec_sni_valid_at(p: Seq<u8>, i: int) -> bool {
    &&& i + 10 < p.len()
    &&& p[i] == 0 && p[i + 1] == 0
    &&& spec_be16(p, i + 2) == spec_be16(p, i + 4) + 2
    &&& spec_be16(p, i + 4) == spec_be16(p, i + 7) + 3
    &&& p[i + 6] == 0
    &&& i + 9 + spec_be16(p, i + 7) <= p.len()
    &&& 3 <= spec_be16(p, i + 7) <= 253
    &&& spec_hostname_bytes(p.subrange(i + 9, i + 9 + spec_be16(p, i + 7)))
}

/// The hostname named by the server-name extension at `i`.
pub open spec fn spec_sni_name_at(p: Seq<u8>, i: int) -> Seq<u8> {
    p.subrange(i + 9, i + 9 + spec_be16(p, i + 7))
}

/// Scan for the first well-formed server-name extension at or after `i`.
pub open spec fn spec_sni_scan(p: Seq<u8>, i: int) -> Option<Seq<u8>>
    decreases p.len() - i,
{
    if i + 10 >= p.len() {
        None
    } else if spec_sni_valid_at(p, i) {
        Some(spec_sni_name_at(p, i))
    } else {
        spec_sni_scan(p, i + 1)
    }
}

/// The SNI hostname of a ClientHello payload: the name of the first
/// well-formed server-name extension, in payloads of at least 44 bytes.
pub open spec fn spec_extract_sni(p: Seq<u8>) -> Option<Seq<u8>> {
    if p.len() < 44 {
        None
    } else {
        spec_sni_scan(p, 0)
    }
}

impl Packet {
    /// Whether the payload looks like an HTTP request line.
    pub fn is_http_request(&self) -> (r: bool)
        requires
            self.wf(),
        ensures
            r == spec_is_http_request(self.spec_payload()),
    {
        let payload = self.payload();
        if payload.len() < 4 {
            return false;
        }
        let b0 = payload[0];
        let b1 = payload[1];
        let b2 = payload[2];
        let b3 = payload[3];
        (b0 == 71 && b1 == 69 && b2 == 84 && b3 == 32) || (b0 == 80 && b1 == 79 && b2 == 83 && b3
            == 84) || (b0 == 72 && b1 == 69 && b2 == 65 && b3 == 68) || (b0 == 80 && b1 == 85 && b2
            == 84 && b3 == 32) || (b0 == 68 && b1 == 69 && b2 == 76 && b3 == 69) || (b0 == 67 && b1
            == 79 && b2 == 78 && b3 == 78) || (b0 == 79 && b1 == 80 && b2 == 84 && b3 == 73)
    }

    /// Whether the payload looks like a TLS ClientHello.
    pub fn is_tls_client_hello(&self) -> (r: bool)
        requires
            self.wf(),
        ensures
            r == spec_is_tls_client_hello(self.spec_payload()),
    {
        let payload = self.payload();
        if payload.len() < 3 {
            return false;
        }
        payload[0] == 0x16 && payload[1] == 0x03 && (payload[2] == 0x01 || payload[2] == 0x03)
    }

    /// Extract the server name from a TLS ClientHello payload.
    ///
    /// Scans for the first extension whose lengths agree
    /// (extension length = list length + 2, list length = name length
    /// + 3, name type 0) and whose name is 3 to 253 bytes of hostname
    /// characters.
    pub fn extract_sni(&self) -> (r: Option<String>)
        requires
            self.wf(),
        ensures
            r is Some <==> spec_extract_sni(self.spec_payload()) is Some,
            r matches Some(s) ==> s@ == crate::util::spec_ascii_chars(
                spec_extract_sni(self.spec_payload())->0,
            ),
    {
        let payload = self.payload();
        if payload.len() < 44 {
            return None;
        }
        let mut ptr: usize = 0;
        let n = payload.len();
        loop
            invariant
                n == payload@.len(),
                n >= 44,
                payload@ == self.spec_payload(),
                spec_sni_scan(payload@, 0) == spec_sni_scan(payload@, ptr as int),
            decreases n - ptr,
        {
            if ptr >= n || n - ptr <= 10 {
                return None;
            }
            assert(ptr + 10 < n);
            match sni_check(payload, ptr) {
                Some(name_len) => {
                    let start = ptr + 9;
                    let name = slice_subrange(payload, start, start + name_len);
                    proof {
                        assert(spec_sni_valid_at(payload@, ptr as int));
                        assert(name@ =~= spec_sni_name_at(payload@, ptr as int));
                        assert(spec_sni_scan(payload@, ptr as int) == Some(
                            spec_sni_name_at(payload@, ptr as int),
                        ));
                        assert(spec_hostname_bytes(name@));
                        assert(crate::util::spec_all_ascii(name@));
                    }
                    return Some(crate::util::string_from_ascii(name));
                },
                None => {
                    ptr = ptr + 1;
                },
            }
        }
    }
}

/// The bytes of the HTTP Host header marker `"\r\nHost: "`.
pub open spec fn spec_host_marker() -> Seq<u8> {
    seq![13u8, 10u8, 72u8, 111u8, 115u8, 116u8, 58u8, 32u8]
}

/// The bytes of a line break `"\r\n"`.
pub open spec fn spec_crlf() -> Seq<u8> {
    seq![13u8, 10u8]
}

/// The HTTP Host header value of a request payload: the bytes between
/// the first `"\r\nHost: "` marker and the next line break, when they
/// are 3 to 253 ASCII bytes.
pub open spec fn spec_extract_http_host(p: Seq<u8>) -> Option<Seq<u8>> {
    match crate::util::spec_find_seq(p, spec_host_marker(), 0) {
        Option::None => None,
        Option::Some(i) => match crate::util::spec_find_seq(p, spec_crlf(), i + 8) {
            Option::None => None,
            Option::Some(j) => {
                let host = p.subrange(i + 8, j);
                if 3 <= host.len() <= 253 && crate::util::spec_all_ascii(host) {
                    Some(host)
                } else {
                    None
                }
            },
        },
    }
}

impl Packet {
    /// Extract the Host header value from an HTTP request payload.
    #[verifier::loop_isolation(false)]
    pub fn extract_http_host(&self) -> (r: Option<String>)
        requires
            self.wf(),
        ensures
            r is Some <==> spec_extract_http_host(self.spec_payload()) is Some,
            r matches Some(s) ==> s@ == crate::util::spec_ascii_chars(
                spec_extract_http_host(self.spec_payload())->0,
            ),
    {
        let payload = self.payload();
        let n = payload.len();
        let marker: Vec<u8> = vec![13u8, 10u8, 72u8, 111u8, 115u8, 116u8, 58u8, 32u8];
        let crlf: Vec<u8> = vec![13u8, 10u8];
        proof {
            assert(marker@ =~= spec_host_marker());
            assert(crlf@ =~= spec_crlf());
        }
        let found = crate::util::find_seq_from(payload, marker.as_slice(), 0);
        let i = match found {
            Some(i) => i,
            None => {
                proof {
                    crate::util::lemma_find_seq_none(payload@, spec_host_marker(), 0);
                }
                return None;
            },
        };
        proof {
            crate::util::lemma_find_seq_some(payload@, spec_host_marker(), 0, i as int);
        }
        let host_start = i + 8;
        let found_end = crate::util::find_seq_from(payload, crlf.as_slice(), host_start);
        let j = match found_end {
            Some(j) => j,
            None => {
                proof {
                    crate::util::lemma_find_seq_none(payload@, spec_crlf(), host_start as int);
                }
                return None;
            },
        };
        proof {
            crate::util::lemma_find_seq_some(payload@, spec_crlf(), host_start as int, j as int);
        }
        let host_len = j - host_start;
        if !(3 <= host_len && host_len <= 253) {
            return None;
        }
        let host = slice_subrange(payload, host_start, j);
        let mut k: usize = 0;
        while k < host_len
            invariant
                host@ == payload@.subrange(host_start as int, j as int),
                host_start + host_len == j,
                j <= payload@.len(),
                k <= host_len,
                forall|m: int| 0 <= m < k ==> #[trigger] host@[m] < 128,
            decreases host_len - k,
        {
            if host[k] >= 128 {
                proof {
                    assert(!crate::util::spec_all_ascii(
                        self.spec_payload().subrange(i + 8, j as int),
                    ));
                }
                return None;
            }
            k = k + 1;
        }
        proof {
            assert(crate::util::spec_all_ascii(host@));
        }
        Some(crate::util::string_from_ascii(host))
    }
}

/// Check for a well-formed server-name extension at `ptr`, returning
/// its name length.
#[verifier::loop_isolation(false)]
fn sni_check(payload: &[u8], ptr: usize) -> (r: Option<usize>)
    requires
        ptr + 10 < payload@.len(),
    ensures
        r is Some <==> spec_sni_valid_at(payload@, ptr as int),
        r matches Some(nl) ==> nl == spec_be16(payload@, ptr as int + 7) && ptr + 9 + nl
            <= payload@.len(),
{
    let n = payload.len();
    if payload[ptr] != 0 || payload[ptr + 1] != 0 {
        return None;
    }
    let ext_len = (payload[ptr + 2] as usize) * 256 + (payload[ptr + 3] as usize);
    let list_len = (payload[ptr + 4] as usize) * 256 + (payload[ptr + 5] as usize);
    let name_type = payload[ptr + 6];
    let name_len = (payload[ptr + 7] as usize) * 256 + (payload[ptr + 8] as usize);
    if !(ext_len == list_len + 2 && list_len == name_len + 3 && name_type == 0) {
        return None;
    }
    if !(3 <= name_len && name_len <= 253) {
        return None;
    }
    if name_len > n - (ptr + 9) {
        return None;
    }
    assert(ptr + 9 + name_len <= payload@.len());
    let mut k: usize = 0;
    while k < name_len
        invariant
            n == payload@.len(),
            name_len <= 253,
            ptr + 9 + name_len <= payload@.len(),
            k <= name_len,
            forall|j: int| 0 <= j < k ==> spec_hostname_byte(#[trigger] payload@[ptr + 9 + j]),
        decreases name_len - k,
    {
        let b = payload[ptr + 9 + k];
        if !((48 <= b && b <= 57) || (97 <= b && b <= 122) || b == 46 || b == 45) {
            proof {
                let s = payload@.subrange(ptr + 9, ptr as int + 9 + name_len);
                assert(s[k as int] == payload@[ptr + 9 + k]);
                assert(!spec_hostname_byte(s[k as int]));
                assert(!spec_hostname_bytes(s));
            }
            return None;
        }
        k = k + 1;
    }
    proof {
        let s = payload@.subrange(ptr + 9, ptr as int + 9 + name_len);
        assert forall|j: int| 0 <= j < s.len() implies spec_hostname_byte(s[j]) by {
            assert(s[j] == payload@[ptr + 9 + j]);
        }
    }
    Some(name_len)
}

/// Parse round trip.  A well-formed packet's buffer parses again, and
/// any two well-formed packets over the same buffer and direction are
/// equal in every parsed field.  With the contract of `from_bytes` —
/// parsing neither alters the buffer nor fails on a well-formed packet
/// — this says that parsing the serialised bytes of a parsed packet
/// reproduces it field for field.
pub proof fn lemma_parse_roundtrip(a: Packet, b: Packet)
    requires
        a.wf(),
        b.wf(),
        a.data@ == b.data@,
        a.direction == b.direction,
    ensures
        Packet::spec_parse_ok(a.data@),
        a.ip_version == b.ip_version,
        a.protocol == b.protocol,
        a.src_addr == b.src_addr,
        a.dst_addr == b.dst_addr,
        a.src_port == b.src_port,
        a.dst_port == b.dst_port,
        a.ip_header_len == b.ip_header_len,
        a.transport_header_len == b.transport_header_len,
        a.tcp_flags == b.tcp_flags,
        a.ttl == b.ttl,
        a.ip_id == b.ip_id,
        a.spec_payload() == b.spec_payload(),
{
    let d = a.data@;
    if a.ip_version == IpVersion::V4 {
        assert(d[0] / 16 == 4);
        assert(b.ip_version == IpVersion::V4);
    } else {
        assert(d[0] / 16 == 6);
        assert(b.ip_version == IpVersion::V6);
    }
}

/// Byte updates strictly below the payload offset leave the payload,
/// the sequence number and the acknowledgment number views unchanged
/// wherever the metadata is unchanged and only header bytes moved.
proof fn lemma_payload_update_below(a: Packet, b: Packet)
    requires
        a.spec_payload_off() == b.spec_payload_off(),
        b.data@.len() == a.data@.len(),
        forall|i: int|
            a.spec_payload_off() <= i < a.data@.len() ==> a.data@[i] == b.data@[i],
    ensures
        b.spec_payload() == a.spec_payload(),
{
    if a.spec_payload_off() < a.data@.len() {
        assert(b.spec_payload() =~= a.spec_payload());
    } else {
        assert(b.spec_payload() =~= a.spec_payload());
    }
}

} // verus!

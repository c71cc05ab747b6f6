//! A builder for synthesising raw IPv4/TCP packets, used for decoys
//! and for tests.

use crate::types::{IpVersion, Protocol, TcpFlags, spec_byte_of_flags};
use vstd::prelude::*;

verus! {

/// Builder for a raw IPv4 TCP packet with a 20-byte IP header and a
/// 20-byte TCP header.
pub struct PacketBuilder {
    /// IP version of the packet to build.
    pub ip_version: IpVersion,
    /// Transport protocol of the packet to build.
    pub protocol: Protocol,
    /// Source address octets.
    pub src_ip: [u8; 4],
    /// Destination address octets.
    pub dst_ip: [u8; 4],
    /// Source port.
    pub src_port: u16,
    /// Destination port.
    pub dst_port: u16,
    /// TTL.
    pub ttl: u8,
    /// TCP flags.
    pub tcp_flags: TcpFlags,
    /// TCP sequence number.
    pub seq: u32,
    /// TCP acknowledgment number.
    pub ack: u32,
    /// Payload bytes.
    pub payload: Vec<u8>,
}

/// The bytes that `build` produces: a 20-byte IPv4 header, a 20-byte
/// TCP header, then the payload.  The total-length field is written
/// modulo 2^16.
pub open spec fn spec_built_bytes(b: PacketBuilder) -> Seq<u8> {
    let total = (40 + b.payload@.len()) % 65536;
    seq![
        0x45u8,
        0x00u8,
        ((total / 256) as u8),
        ((total % 256) as u8),
        0x00u8,
        0x00u8,
        0x40u8,
        0x00u8,
        b.ttl,
        0x06u8,
        0x00u8,
        0x00u8,
        b.src_ip@[0],
        b.src_ip@[1],
        b.src_ip@[2],
        b.src_ip@[3],
        b.dst_ip@[0],
        b.dst_ip@[1],
        b.dst_ip@[2],
        b.dst_ip@[3],
        ((b.src_port / 256) as u8),
        ((b.src_port % 256) as u8),
        ((b.dst_port / 256) as u8),
        ((b.dst_port % 256) as u8),
        ((b.seq / 0x1000000) as u8),
        (((b.seq / 0x10000) % 0x100) as u8),
        (((b.seq / 0x100) % 0x100) as u8),
        ((b.seq % 0x100) as u8),
        ((b.ack / 0x1000000) as u8),
        (((b.ack / 0x10000) % 0x100) as u8),
        (((b.ack / 0x100) % 0x100) as u8),
        ((b.ack % 0x100) as u8),
        0x50u8,
        spec_byte_of_flags(b.tcp_flags),
        0xFFu8,
        0xFFu8,
        0x00u8,
        0x00u8,
        0x00u8,
        0x00u8,
    ] + b.payload@
}

impl PacketBuilder {
    /// A new builder for an IPv4 TCP packet, with TTL 64 and everything
    /// else zeroed.
    pub fn tcp_v4() -> (r: PacketBuilder)
        ensures
            r.ip_version == IpVersion::V4,
            r.protocol == Protocol::Tcp,
            r.src_ip@ == seq![0u8, 0u8, 0u8, 0u8],
            r.dst_ip@ == seq![0u8, 0u8, 0u8, 0u8],
            r.src_port == 0,
            r.dst_port == 0,
            r.ttl == 64,
            r.tcp_flags == (TcpFlags {
                fin: false,
                syn: false,
                rst: false,
                psh: false,
                ack: false,
                urg: false,
                ece: false,
                cwr: false,
            }),
            r.seq == 0,
            r.ack == 0,
            r.payload@ == Seq::<u8>::empty(),
    {
        let r = PacketBuilder {
            ip_version: IpVersion::V4,
            protocol: Protocol::Tcp,
            src_ip: [0, 0, 0, 0],
            dst_ip: [0, 0, 0, 0],
            src_port: 0,
            dst_port: 0,
            ttl: 64,
            tcp_flags: TcpFlags {
                fin: false,
                syn: false,
                rst: false,
                psh: false,
                ack: false,
                urg: false,
                ece: false,
                cwr: false,
            },
            seq: 0,
            ack: 0,
            payload: Vec::new(),
        };
        proof {
            assert(r.src_ip@ =~= seq![0u8, 0u8, 0u8, 0u8]);
            assert(r.dst_ip@ =~= seq![0u8, 0u8, 0u8, 0u8]);
        }
        r
    }

    /// Set the source address.
    pub fn src_ip_v4(self, ip: [u8; 4]) -> (r: PacketBuilder)
        ensures
            r == (PacketBuilder { src_ip: ip, ..self }),
    {
        PacketBuilder { src_ip: ip, ..self }
    }

    /// Set the destination address.
    pub fn dst_ip_v4(self, ip: [u8; 4]) -> (r: PacketBuilder)
        ensures
            r == (PacketBuilder { dst_ip: ip, ..self }),
    {
        PacketBuilder { dst_ip: ip, ..self }
    }

    /// Set the source port.
    pub fn src_port(self, port: u16) -> (r: PacketBuilder)
        ensures
            r == (PacketBuilder { src_port: port, ..self }),
    {
        PacketBuilder { src_port: port, ..self }
    }

    /// Set the destination port.
    pub fn dst_port(self, port: u16) -> (r: PacketBuilder)
        ensures
            r == (PacketBuilder { dst_port: port, ..self }),
    {
        PacketBuilder { dst_port: port, ..self }
    }

    /// Set the TTL.
    pub fn ttl(self, ttl: u8) -> (r: PacketBuilder)
        ensures
            r == (PacketBuilder { ttl, ..self }),
    {
        PacketBuilder { ttl, ..self }
    }

    /// Set the TCP flags.
    pub fn flags(self, flags: TcpFlags) -> (r: PacketBuilder)
        ensures
            r == (PacketBuilder { tcp_flags: flags, ..self }),
    {
        PacketBuilder { tcp_flags: flags, ..self }
    }

    /// Set the TCP sequence number.
    pub fn seq(self, seq: u32) -> (r: PacketBuilder)
        ensures
            r == (PacketBuilder { seq, ..self }),
    {
        PacketBuilder { seq, ..self }
    }

    /// Set the TCP acknowledgment number.
    pub fn ack(self, ack: u32) -> (r: PacketBuilder)
        ensures
            r == (PacketBuilder { ack, ..self }),
    {
        PacketBuilder { ack, ..self }
    }

    /// Set the payload.
    pub fn payload(self, data: &[u8]) -> (r: PacketBuilder)
        ensures
            r.payload@ == data@,
            r == (PacketBuilder { payload: r.payload, ..self }),
    {
        let p = vstd::slice::slice_to_vec(data);
        PacketBuilder { payload: p, ..self }
    }

    /// Build the raw packet bytes.
    #[verifier::rlimit(60)]
    pub fn build(self) -> (r: Vec<u8>)
        requires
            self.payload@.len() + 40 <= usize::MAX,
        ensures
            r@ == spec_built_bytes(self),
            r@.len() == 40 + self.payload@.len(),
    {
        let total_len: usize = 40 + self.payload.len();
        let total: usize = total_len % 65536;
        let mut packet: Vec<u8> = Vec::new();
        packet.push(0x45);
        packet.push(0x00);
        packet.push((total / 256) as u8);
        packet.push((total % 256) as u8);
        packet.push(0x00);
        packet.push(0x00);
        packet.push(0x40);
        packet.push(0x00);
        packet.push(self.ttl);
        packet.push(0x06);
        packet.push(0x00);
        packet.push(0x00);
        packet.push(self.src_ip[0]);
        packet.push(self.src_ip[1]);
        packet.push(self.src_ip[2]);
        packet.push(self.src_ip[3]);
        packet.push(self.dst_ip[0]);
        packet.push(self.dst_ip[1]);
        packet.push(self.dst_ip[2]);
        packet.push(self.dst_ip[3]);
        packet.push((self.src_port / 256) as u8);
        packet.push((self.src_port % 256) as u8);
        packet.push((self.dst_port / 256) as u8);
        packet.push((self.dst_port % 256) as u8);
        packet.push((self.seq / 0x1000000) as u8);
        packet.push(((self.seq / 0x10000) % 0x100) as u8);
        packet.push(((self.seq / 0x100) % 0x100) as u8);
        packet.push((self.seq % 0x100) as u8);
        packet.push((self.ack / 0x1000000) as u8);
        packet.push(((self.ack / 0x10000) % 0x100) as u8);
        packet.push(((self.ack / 0x100) % 0x100) as u8);
        packet.push((self.ack % 0x100) as u8);
        packet.push(0x50);
        packet.push(self.tcp_flags.to_byte());
        packet.push(0xFF);
        packet.push(0xFF);
        packet.push(0x00);
        packet.push(0x00);
        packet.push(0x00);
        packet.push(0x00);
        packet.extend_from_slice(self.payload.as_slice());
        proof {
            assert(packet@ =~= spec_built_bytes(self));
        }
        packet
    }
}

} // verus!

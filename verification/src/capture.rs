//! The capture-driver abstraction: the interface a platform packet
//! driver implements, and the opaque per-packet address that must
//! travel from `recv` back to `send` unchanged apart from the
//! checksum-validity bits.

use crate::error::Error;
use crate::packet::Packet;
use crate::types::Direction;
use vstd::prelude::*;

verus! {

/// Platform-specific reinjection metadata for one captured packet.
///
/// The core treats it as opaque: it flows from `recv` back to `send`
/// unchanged, except that clearing the checksum-validity bits asks the
/// driver to recompute the checksums.
#[derive(Debug, Clone, Copy, PartialEq, Eq, Structural)]
pub struct PacketAddress {
    /// Interface index.
    pub interface_index: u32,
    /// Subinterface index.
    pub subinterface_index: u32,
    /// Whether the packet is outbound.
    pub outbound: bool,
    /// Whether the packet is loopback traffic.
    pub loopback: bool,
    /// Whether the packet was injected by this engine.
    pub impostor: bool,
    /// Whether the packet is IPv6.
    pub ipv6: bool,
    /// Whether the IP checksum is valid.
    pub ip_checksum: bool,
    /// Whether the TCP checksum is valid.
    pub tcp_checksum: bool,
    /// Whether the UDP checksum is valid.
    pub udp_checksum: bool,
}

impl PacketAddress {
    /// An all-clear address for an outbound packet.
    pub fn outbound() -> (r: PacketAddress)
        ensures
            r.outbound,
            !r.loopback,
            !r.impostor,
            !r.ipv6,
            r.interface_index == 0,
            r.subinterface_index == 0,
            !r.ip_checksum && !r.tcp_checksum && !r.udp_checksum,
    {
        PacketAddress {
            interface_index: 0,
            subinterface_index: 0,
            outbound: true,
            loopback: false,
            impostor: false,
            ipv6: false,
            ip_checksum: false,
            tcp_checksum: false,
            udp_checksum: false,
        }
    }

    /// An all-clear address for an inbound packet.
    pub fn inbound() -> (r: PacketAddress)
        ensures
            !r.outbound,
            !r.loopback,
            !r.impostor,
            !r.ipv6,
            r.interface_index == 0,
            r.subinterface_index == 0,
            !r.ip_checksum && !r.tcp_checksum && !r.udp_checksum,
    {
        PacketAddress {
            interface_index: 0,
            subinterface_index: 0,
            outbound: false,
            loopback: false,
            impostor: false,
            ipv6: false,
            ip_checksum: false,
            tcp_checksum: false,
            udp_checksum: false,
        }
    }

    /// The same address marked as an engine-injected packet.
    pub fn as_impostor(self) -> (r: PacketAddress)
        ensures
            r == (PacketAddress { impostor: true, ..self }),
    {
        PacketAddress { impostor: true, ..self }
    }

    /// The same address with every checksum-validity bit cleared, so
    /// the driver recomputes the checksums on send.
    pub fn recalculate_checksums(self) -> (r: PacketAddress)
        ensures
            r == (PacketAddress {
                ip_checksum: false,
                tcp_checksum: false,
                udp_checksum: false,
                ..self
            }),
    {
        PacketAddress { ip_checksum: false, tcp_checksum: false, udp_checksum: false, ..self }
    }
}

/// One packet as it came off the capture driver.
#[derive(Debug)]
pub struct CapturedPacket {
    /// Raw packet bytes.
    pub data: Vec<u8>,
    /// Packet direction.
    pub direction: Direction,
    /// Interface index.
    pub interface_index: u32,
    /// Subinterface index.
    pub subinterface_index: u32,
    /// Reinjection metadata, handed back to `send`.
    pub address: PacketAddress,
}

impl CapturedPacket {
    /// Parse the captured bytes into a structured packet.
    pub fn parse(&self) -> (r: Result<Packet, Error>)
        ensures
            r is Ok <==> Packet::spec_parse_ok(self.data@),
            r matches Ok(p) ==> p.wf() && p.data@ == self.data@ && p.direction == self.direction
                && !p.is_fake,
    {
        Packet::from_bytes(&self.data, self.direction)
    }
}

/// The packet capture and injection interface a platform driver
/// implements.  The engine blocks only inside `recv` and `send`.
pub trait PacketCapture {
    /// Receive one packet; blocks until one is available.
    fn recv(&mut self) -> Result<CapturedPacket, Error>;

    /// Send or reinject one packet with its address.
    fn send(&mut self, packet: &Vec<u8>, addr: &PacketAddress) -> Result<(), Error>;

    /// Close the capture handle; idempotent.
    fn close(&mut self) -> Result<(), Error>;
}

/// The filter interface of a capture driver: which packets to divert.
pub trait PacketFilter {
    /// Install a filter expression; the syntax is the driver's.
    fn set_filter(&mut self, filter: &str) -> Result<(), Error>;

    /// The currently installed filter expression.
    fn get_filter(&self) -> &str;
}

} // verus!

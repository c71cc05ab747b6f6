//! QUIC blocking: drop outbound QUIC Initial packets so that browsers
//! fall back to TCP and TLS, where the other strategies can work.

use crate::context::Context;
use crate::error::Error;
use crate::packet::Packet;
use crate::strategy::StrategyAction;
use crate::types::{Direction, Protocol};
use crate::util::spec_be32;
use vstd::prelude::*;

verus! {

/// The QUIC blocking strategy.
#[derive(Debug)]
pub struct QuicBlockStrategy {
    /// Minimum payload size of a QUIC Initial.
    pub min_payload_size: usize,
}

/// Whether a UDP payload looks like a QUIC Initial: at least
/// `min` bytes, both high bits of the first byte set, and a version
/// field of 0 or 1.
pub open spec fn spec_is_quic_initial(p: Seq<u8>, min: int) -> bool {
    &&& p.len() >= min
    &&& p.len() >= 1 && p[0] >= 0xC0
    &&& p.len() >= 5
    &&& (spec_be32(p, 1) == 0 || spec_be32(p, 1) == 1)
}

impl QuicBlockStrategy {
    /// A new QUIC blocking strategy with the standard 1200-byte
    /// Initial minimum.
    pub fn new() -> (r: QuicBlockStrategy)
        ensures
            r.min_payload_size == 1200,
    {
        QuicBlockStrategy { min_payload_size: 1200 }
    }

    /// Whether the packet's payload looks like a QUIC Initial.
    pub fn is_quic_initial(&self, packet: &Packet) -> (r: bool)
        requires
            packet.wf(),
        ensures
            r == spec_is_quic_initial(packet.spec_payload(), self.min_payload_size as int),
    {
        let payload = packet.payload();
        if payload.len() < self.min_payload_size {
            return false;
        }
        if payload.len() < 1 || payload[0] < 0xC0 {
            return false;
        }
        if payload.len() >= 5 {
            let version = (payload[1] as u32) * 0x1000000 + (payload[2] as u32) * 0x10000 + (
            payload[3] as u32) * 0x100 + (payload[4] as u32);
            version == 1 || version == 0
        } else {
            false
        }
    }

    /// Whether the strategy takes the packet: outbound UDP to port 443
    /// with a payload of at least the Initial minimum.
    pub open spec fn spec_should_apply(self, p: Packet, ctx: Context) -> bool {
        &&& p.direction == Direction::Outbound
        &&& p.protocol == Protocol::Udp
        &&& p.dst_port == 443
        &&& p.spec_payload().len() >= self.min_payload_size
    }

    /// Whether the strategy takes the packet.
    pub fn should_apply(&self, packet: &Packet, ctx: &Context) -> (r: bool)
        requires
            packet.wf(),
        ensures
            r == self.spec_should_apply(*packet, *ctx),
    {
        packet.is_outbound() && packet.is_udp() && packet.dst_port == 443 && packet.payload_len()
            >= self.min_payload_size
    }

    /// What `apply` does: a QUIC Initial is dropped and counted, with
    /// everything else in the context untouched; any other packet
    /// passes through with the context unchanged.
    pub open spec fn spec_apply_post(
        self,
        packet: Packet,
        c0: Context,
        c1: Context,
        a: StrategyAction,
    ) -> bool {
        &&& crate::strategy::spec_action_wf(a)
        &&& (spec_is_quic_initial(packet.spec_payload(), self.min_payload_size as int) ==> (
        a is Drop && c1.stats == (crate::context::Stats {
            quic_blocked: crate::context::spec_bump(c0.stats.quic_blocked),
            ..c0.stats
        }) && c1.tcp_tracker == c0.tcp_tracker && c1.dns_tracker == c0.dns_tracker
            && c1.domain_filter == c0.domain_filter && c1.blacklist == c0.blacklist
            && c1.blacklist_enabled == c0.blacklist_enabled && c1.now_ms == c0.now_ms))
        &&& (!spec_is_quic_initial(packet.spec_payload(), self.min_payload_size as int) ==> ((
        a matches StrategyAction::Pass(p) && p == packet) && c1 == c0))
    }

    /// Drop a QUIC Initial; pass anything else through.
    pub fn apply(&self, packet: Packet, ctx: &mut Context) -> (r: Result<StrategyAction, Error>)
        requires
            packet.wf(),
            old(ctx).wf(),
        ensures
            final(ctx).wf(),
            r is Ok,
            r matches Ok(a) ==> self.spec_apply_post(packet, *old(ctx), *final(ctx), a),
    {
        if self.is_quic_initial(&packet) {
            if ctx.stats.quic_blocked < u64::MAX {
                ctx.stats.quic_blocked = ctx.stats.quic_blocked + 1;
            }
            return Ok(StrategyAction::Drop);
        }
        Ok(StrategyAction::Pass(packet))
    }
}

} // verus!

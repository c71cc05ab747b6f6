//! Passive-DPI blocking: inbound RST packets whose IP identification
//! matches a configured set are recognised as middlebox injections and
//! dropped, keeping the connection alive.

use crate::context::Context;
use crate::error::Error;
use crate::packet::Packet;
use crate::strategy::StrategyAction;
use crate::types::{Direction, Protocol};
use vstd::prelude::*;

verus! {

/// The passive-DPI blocking strategy.
#[derive(Debug)]
pub struct PassiveDpiStrategy {
    /// IP identification values that mark injected RST packets.
    pub ip_ids: Vec<u16>,
}

/// Whether the list contains the value.
pub open spec fn spec_contains_u16(s: Seq<u16>, v: u16) -> bool {
    exists|i: int| 0 <= i < s.len() && s[i] == v
}

impl PassiveDpiStrategy {
    /// A new strategy recognising the given identification values.
    pub fn from_ids(ip_ids: Vec<u16>) -> (r: PassiveDpiStrategy)
        ensures
            r.ip_ids == ip_ids,
    {
        PassiveDpiStrategy { ip_ids }
    }

    /// Whether the strategy takes the packet: an inbound TCP RST whose
    /// IPv4 identification is in the configured set.
    pub open spec fn spec_should_apply(self, p: Packet, ctx: Context) -> bool {
        &&& p.direction == Direction::Inbound
        &&& p.protocol == Protocol::Tcp
        &&& (p.tcp_flags matches Some(f) && f.rst)
        &&& (p.ip_id matches Some(id) && spec_contains_u16(self.ip_ids@, id))
    }

    /// Whether the strategy takes the packet.
    pub fn should_apply(&self, packet: &Packet, ctx: &Context) -> (r: bool)
        requires
            packet.wf(),
        ensures
            r == self.spec_should_apply(*packet, *ctx),
    {
        if !(packet.is_inbound() && packet.is_tcp() && packet.is_rst()) {
            return false;
        }
        match packet.ip_id {
            Some(id) => self.contains_id(id),
            None => false,
        }
    }

    /// Whether the identification value is in the configured set.
    fn contains_id(&self, id: u16) -> (r: bool)
        ensures
            r == spec_contains_u16(self.ip_ids@, id),
    {
        let n = self.ip_ids.len();
        let mut i: usize = 0;
        while i < n
            invariant
                n == self.ip_ids@.len(),
                i <= n,
                forall|j: int| 0 <= j < i ==> self.ip_ids@[j] != id,
            decreases n - i,
        {
            if self.ip_ids[i] == id {
                return true;
            }
            i = i + 1;
        }
        false
    }

    /// What `apply` does: the packet is swallowed and the drop counter
    /// moves; nothing else in the context changes.
    pub open spec fn spec_apply_post(
        self,
        packet: Packet,
        c0: Context,
        c1: Context,
        a: StrategyAction,
    ) -> bool {
        &&& crate::strategy::spec_action_wf(a)
        &&& a is Drop
        &&& c1.stats == (crate::context::Stats {
            packets_dropped: crate::context::spec_bump(c0.stats.packets_dropped),
            ..c0.stats
        })
        &&& c1.tcp_tracker == c0.tcp_tracker
        &&& c1.dns_tracker == c0.dns_tracker
        &&& c1.domain_filter == c0.domain_filter
        &&& c1.blacklist == c0.blacklist
        &&& c1.blacklist_enabled == c0.blacklist_enabled
        &&& c1.now_ms == c0.now_ms
    }

    /// Drop the injected RST.
    pub fn apply(&self, packet: Packet, ctx: &mut Context) -> (r: Result<StrategyAction, Error>)
        requires
            packet.wf(),
            old(ctx).wf(),
        ensures
            final(ctx).wf(),
            r is Ok,
            r matches Ok(a) ==> self.spec_apply_post(packet, *old(ctx), *final(ctx), a),
    {
        if ctx.stats.packets_dropped < u64::MAX {
            ctx.stats.packets_dropped = ctx.stats.packets_dropped + 1;
        }
        Ok(StrategyAction::Drop)
    }
}

} // verus!

//! DNS redirection: outbound queries are re-addressed to an alternate
//! resolver, and the original destination is remembered so the
//! response can be rewritten to appear from the server the client
//! asked.

use crate::addr::{IpAddress, Ipv4Address};
use crate::context::Context;
use crate::error::Error;
use crate::packet::Packet;
use crate::strategy::StrategyAction;
use crate::types::{Direction, IpVersion, Protocol};
use crate::util::spec_be16;
use vstd::prelude::*;

verus! {

/// The DNS redirection strategy.
#[derive(Debug)]
pub struct DnsRedirectStrategy {
    /// Upstream resolver address.
    pub upstream_addr: Ipv4Address,
    /// Upstream resolver port.
    pub upstream_port: u16,
}

/// Whether a UDP payload looks like a DNS query: at least 12 header
/// bytes, the QR bit clear, at least one question, and no answers.
pub open spec fn spec_is_dns_query(p: Seq<u8>) -> bool {
    &&& p.len() >= 12
    &&& p[2] < 128
    &&& spec_be16(p, 4) >= 1
    &&& spec_be16(p, 6) == 0
}

impl DnsRedirectStrategy {
    /// A new redirection strategy towards the given resolver.
    pub fn new(upstream_addr: Ipv4Address, upstream_port: u16) -> (r: DnsRedirectStrategy)
        ensures
            r.upstream_addr == upstream_addr,
            r.upstream_port == upstream_port,
    {
        DnsRedirectStrategy { upstream_addr, upstream_port }
    }

    /// Whether a payload looks like a DNS query.
    pub fn is_dns_query(&self, payload: &[u8]) -> (r: bool)
        ensures
            r == spec_is_dns_query(payload@),
    {
        if payload.len() < 12 {
            return false;
        }
        if payload[2] >= 128 {
            return false;
        }
        let qdcount = (payload[4] as u32) * 256 + (payload[5] as u32);
        if qdcount == 0 {
            return false;
        }
        let ancount = (payload[6] as u32) * 256 + (payload[7] as u32);
        ancount == 0
    }

    /// Whether the strategy takes the packet: an outbound IPv4 UDP
    /// packet to port 53, or an inbound IPv4 UDP packet from port 53
    /// whose response may need its source rewritten.
    pub open spec fn spec_should_apply(self, p: Packet, ctx: Context) -> bool {
        ||| (p.direction == Direction::Outbound && p.protocol == Protocol::Udp && p.dst_port == 53
            && p.ip_version == IpVersion::V4)
        ||| (p.direction == Direction::Inbound && p.protocol == Protocol::Udp && p.src_port == 53
            && p.ip_version == IpVersion::V4)
    }

    /// Whether the strategy takes the packet.
    pub fn should_apply(&self, packet: &Packet, ctx: &Context) -> (r: bool)
        requires
            packet.wf(),
        ensures
            r == self.spec_should_apply(*packet, *ctx),
    {
        (packet.is_outbound() && packet.is_udp() && packet.dst_port == 53 && packet.is_ipv4()) || (
        packet.is_inbound() && packet.is_udp() && packet.src_port == 53 && packet.is_ipv4())
    }

    /// Redirect an outbound query to the upstream resolver, or rewrite
    /// an inbound response to appear from the original server.
    ///
    /// An outbound query is tracked in the query table keyed by its
    /// source port — exactly one entry per port — then re-addressed to
    /// the upstream resolver with its checksums zeroed.  An inbound
    /// response from a tracked port gets its source rewritten back and
    /// the entry dropped.  Anything else passes unchanged.
    /// What `apply` does.  An outbound query is tracked in the query
    /// table keyed by its source port — exactly one entry — then
    /// re-addressed to the upstream resolver with its checksums zeroed
    /// and the redirect counter moved.  An inbound response whose
    /// client port is tracked gets its source rewritten back and the
    /// entry dropped.  Anything else passes unchanged; the hop table,
    /// filter and clock are never touched.
    pub open spec fn spec_apply_post(
        self,
        packet: Packet,
        c0: Context,
        c1: Context,
        a: StrategyAction,
    ) -> bool {
        &&& crate::strategy::spec_action_wf(a)
        &&& c1.tcp_tracker == c0.tcp_tracker
        &&& c1.dns_tracker.timeout_ms == c0.dns_tracker.timeout_ms
        &&& c1.domain_filter == c0.domain_filter
        &&& c1.blacklist == c0.blacklist
        &&& c1.blacklist_enabled == c0.blacklist_enabled
        &&& c1.now_ms == c0.now_ms
        &&& (packet.direction == Direction::Inbound ==> c1.stats == c0.stats)
        &&& ((packet.direction == Direction::Outbound && spec_is_dns_query(
            packet.spec_payload(),
        ) && packet.ip_version == IpVersion::V4 && packet.protocol == Protocol::Udp) ==> ((
        a matches StrategyAction::Pass(p) && {
            &&& p.dst_addr == IpAddress::V4(self.upstream_addr)
            &&& p.dst_port == self.upstream_port
            &&& p.src_addr == packet.src_addr
            &&& p.src_port == packet.src_port
            &&& p.spec_payload() == packet.spec_payload()
            &&& p.direction == packet.direction
            &&& spec_be16(p.data@, 10) == 0
            &&& spec_be16(p.data@, p.ip_header_len + 6) == 0
        }) && crate::conntrack::spec_find_dns(c1.dns_tracker.entries@, packet.src_port) == Some(
            (crate::conntrack::DnsQueryEntry {
                src_port: packet.src_port,
                dst_ip: packet.dst_addr,
                dst_port: packet.dst_port,
                created_ms: c0.now_ms,
            }),
        ) && crate::conntrack::spec_count_dns(c1.dns_tracker.entries@, packet.src_port) == 1
            && c1.stats == (crate::context::Stats {
            dns_redirected: crate::context::spec_bump(c0.stats.dns_redirected),
            ..c0.stats
        })))
        &&& ((packet.direction == Direction::Outbound && !spec_is_dns_query(
            packet.spec_payload(),
        )) ==> ((a matches StrategyAction::Pass(p) && p == packet) && c1 == c0))
        &&& ({
            let lookup = crate::conntrack::spec_dns_lookup(
                c0.dns_tracker.entries@,
                packet.dst_port,
                c0.now_ms,
                c0.dns_tracker.timeout_ms,
            );
            let orig = lookup->0;
            (packet.direction == Direction::Inbound && packet.ip_version == IpVersion::V4
                && packet.protocol == Protocol::Udp && lookup is Some && orig.0 is V4) ==> ((
            a matches StrategyAction::Pass(p) && {
                &&& p.src_addr == orig.0
                &&& p.src_port == orig.1
                &&& p.dst_addr == packet.dst_addr
                &&& p.dst_port == packet.dst_port
                &&& p.spec_payload() == packet.spec_payload()
            }) && crate::conntrack::spec_find_dns(
                c1.dns_tracker.entries@,
                packet.dst_port,
            ) is None)
        })
        &&& ((packet.direction == Direction::Inbound && crate::conntrack::spec_dns_lookup(
            c0.dns_tracker.entries@,
            packet.dst_port,
            c0.now_ms,
            c0.dns_tracker.timeout_ms,
        ) is None) ==> (a matches StrategyAction::Pass(p) && p == packet))
    }

    /// Redirect an outbound query to the upstream resolver, or rewrite
    /// an inbound response to appear from the original server.
    pub fn apply(&self, packet: Packet, ctx: &mut Context) -> (r: Result<StrategyAction, Error>)
        requires
            packet.wf(),
            old(ctx).wf(),
        ensures
            final(ctx).wf(),
            r is Ok,
            r matches Ok(a) ==> self.spec_apply_post(packet, *old(ctx), *final(ctx), a),
    {
        if packet.is_outbound() {
            let mut packet = packet;
            if !self.is_dns_query(packet.payload()) {
                return Ok(StrategyAction::Pass(packet));
            }
            ctx.dns_track_query(packet.src_port, packet.dst_addr, packet.dst_port);
            packet.set_dst_addr_v4(self.upstream_addr);
            packet.set_dst_port(self.upstream_port);
            packet.zero_checksums();
            if ctx.stats.dns_redirected < u64::MAX {
                ctx.stats.dns_redirected = ctx.stats.dns_redirected + 1;
            }
            Ok(StrategyAction::Pass(packet))
        } else {
            let mut packet = packet;
            let original = ctx.dns_get_original(packet.dst_port);
            match original {
                Some((addr, port)) => {
                    match addr {
                        IpAddress::V4(a) => {
                            ctx.dns_drop(packet.dst_port);
                            packet.set_src_addr_v4(a);
                            packet.set_src_port(port);
                            packet.zero_checksums();
                            Ok(StrategyAction::Pass(packet))
                        },
                        IpAddress::V6(_) => Ok(StrategyAction::Pass(packet)),
                    }
                },
                None => Ok(StrategyAction::Pass(packet)),
            }
        }
    }

    /// The conventional regional resolver.
    pub fn yandex() -> (r: DnsRedirectStrategy)
        ensures
            r.upstream_addr == (Ipv4Address { o0: 77, o1: 88, o2: 8, o3: 8 }),
            r.upstream_port == 53,
    {
        DnsRedirectStrategy::new(Ipv4Address::new(77, 88, 8, 8), 53)
    }

    /// Cloudflare's public resolver.
    pub fn cloudflare() -> (r: DnsRedirectStrategy)
        ensures
            r.upstream_addr == (Ipv4Address { o0: 1, o1: 1, o2: 1, o3: 1 }),
            r.upstream_port == 53,
    {
        DnsRedirectStrategy::new(Ipv4Address::new(1, 1, 1, 1), 53)
    }

    /// Google's public resolver.
    pub fn google() -> (r: DnsRedirectStrategy)
        ensures
            r.upstream_addr == (Ipv4Address { o0: 8, o1: 8, o2: 8, o3: 8 }),
            r.upstream_port == 53,
    {
        DnsRedirectStrategy::new(Ipv4Address::new(8, 8, 8, 8), 53)
    }
}

} // verus!

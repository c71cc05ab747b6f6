//! The shared strategy interface: the action a strategy returns, the
//! dispatch over the six strategies, and the builder that assembles
//! them from a configuration.

use crate::config::Config;
use crate::context::Context;
use crate::dns_redirect::DnsRedirectStrategy;
use crate::error::Error;
use crate::fake_packet::FakePacketStrategy;
use crate::fragment::FragmentationStrategy;
use crate::header_mangle::HeaderMangleStrategy;
use crate::packet::Packet;
use crate::passive_dpi::PassiveDpiStrategy;
use crate::quic_block::QuicBlockStrategy;
use vstd::prelude::*;

verus! {

/// What to do with a packet after a strategy has run.  The order of
/// packets within a variant is the on-wire transmission order.
#[derive(Debug)]
pub enum StrategyAction {
    /// Pass the packet through unchanged.
    Pass(Packet),
    /// Replace it with zero or more successor packets.
    Replace(Vec<Packet>),
    /// Swallow the packet.
    Drop,
    /// Send decoys, then the original.
    InjectBefore(Vec<Packet>, Packet),
    /// Send the original, then decoys.
    InjectAfter(Packet, Vec<Packet>),
}

/// One of the engine's bypass strategies.  Each carries its own
/// configuration; dispatch is an explicit match.
#[derive(Debug)]
pub enum Strategy {
    /// Decoy injection.
    FakePacket(FakePacketStrategy),
    /// HTTP header manipulation.
    HeaderMangle(HeaderMangleStrategy),
    /// TCP payload fragmentation.
    Fragmentation(FragmentationStrategy),
    /// QUIC Initial suppression.
    QuicBlock(QuicBlockStrategy),
    /// DNS query redirection.
    DnsRedirect(DnsRedirectStrategy),
    /// Dropping of injected RST packets.
    PassiveDpi(PassiveDpiStrategy),
}

/// The priority of each strategy; lower runs earlier.
pub open spec fn spec_strategy_priority(s: Strategy) -> u8 {
    match s {
        Strategy::QuicBlock(_) => 5,
        Strategy::FakePacket(_) => 10,
        Strategy::DnsRedirect(_) => 20,
        Strategy::PassiveDpi(_) => 40,
        Strategy::HeaderMangle(_) => 50,
        Strategy::Fragmentation(_) => 80,
    }
}

/// Whether the strategy would take the packet, as each strategy's own
/// predicate says.
pub open spec fn spec_strategy_should_apply(s: Strategy, p: Packet, ctx: Context) -> bool {
    match s {
        Strategy::FakePacket(f) => f.spec_should_apply(p, ctx),
        Strategy::HeaderMangle(h) => h.spec_should_apply(p, ctx),
        Strategy::Fragmentation(f) => f.spec_should_apply(p, ctx),
        Strategy::QuicBlock(q) => q.spec_should_apply(p, ctx),
        Strategy::DnsRedirect(d) => d.spec_should_apply(p, ctx),
        Strategy::PassiveDpi(d) => d.spec_should_apply(p, ctx),
    }
}

/// What running the strategy did: each variant's own exact
/// postcondition, relating the packet, the context before and after,
/// and the returned action.
pub open spec fn spec_strategy_apply_post(
    s: Strategy,
    p: Packet,
    c0: Context,
    c1: Context,
    a: StrategyAction,
) -> bool {
    match s {
        Strategy::FakePacket(f) => f.spec_apply_post(p, c0, c1, a),
        Strategy::HeaderMangle(h) => h.spec_apply_post(p, c0, c1, a),
        Strategy::Fragmentation(f) => f.spec_apply_post(p, c0, c1, a),
        Strategy::QuicBlock(q) => q.spec_apply_post(p, c0, c1, a),
        Strategy::DnsRedirect(d) => d.spec_apply_post(p, c0, c1, a),
        Strategy::PassiveDpi(d) => d.spec_apply_post(p, c0, c1, a),
    }
}

/// The packets an action expands to, in on-wire order.
pub open spec fn spec_expansion(a: StrategyAction) -> Seq<Packet> {
    match a {
        StrategyAction::Pass(p) => seq![p],
        StrategyAction::Replace(ps) => ps@,
        StrategyAction::Drop => Seq::empty(),
        StrategyAction::InjectBefore(ps, p) => ps@.push(p),
        StrategyAction::InjectAfter(p, ps) => seq![p] + ps@,
    }
}

impl Strategy {
    /// The strategy's name, for logs and tests.
    pub fn name(&self) -> (r: &'static str)
        ensures
            r@ == spec_strategy_name(*self),
    {
        match self {
            Strategy::FakePacket(_) => "fake_packet",
            Strategy::HeaderMangle(_) => "header_mangle",
            Strategy::Fragmentation(_) => "fragmentation",
            Strategy::QuicBlock(_) => "quic_block",
            Strategy::DnsRedirect(_) => "dns_redirect",
            Strategy::PassiveDpi(_) => "passive_dpi",
        }
    }

    /// The strategy's priority; lower runs earlier.
    pub fn priority(&self) -> (r: u8)
        ensures
            r == spec_strategy_priority(*self),
    {
        match self {
            Strategy::QuicBlock(_) => 5,
            Strategy::FakePacket(_) => 10,
            Strategy::DnsRedirect(_) => 20,
            Strategy::PassiveDpi(_) => 40,
            Strategy::HeaderMangle(_) => 50,
            Strategy::Fragmentation(_) => 80,
        }
    }

    /// Whether the strategy would take this packet in this context.
    pub fn should_apply(&self, packet: &Packet, ctx: &Context) -> (r: bool)
        requires
            packet.wf(),
        ensures
            r == spec_strategy_should_apply(*self, *packet, *ctx),
    {
        match self {
            Strategy::FakePacket(f) => f.should_apply(packet, ctx),
            Strategy::HeaderMangle(h) => h.should_apply(packet, ctx),
            Strategy::Fragmentation(f) => f.should_apply(packet, ctx),
            Strategy::QuicBlock(q) => q.should_apply(packet, ctx),
            Strategy::DnsRedirect(d) => d.should_apply(packet, ctx),
            Strategy::PassiveDpi(d) => d.should_apply(packet, ctx),
        }
    }

    /// Run the strategy on a packet it has taken.
    ///
    /// Never fails; every packet in the returned action is well formed,
    /// the context's tables stay well formed, and the action and the
    /// context relate to the inputs as the dispatched strategy's own
    /// postcondition says.
    pub fn apply(&self, packet: Packet, ctx: &mut Context) -> (r: Result<StrategyAction, Error>)
        requires
            packet.wf(),
            old(ctx).wf(),
        ensures
            final(ctx).wf(),
            r is Ok,
            r matches Ok(a) ==> spec_action_wf(a),
            r matches Ok(a) ==> spec_strategy_apply_post(
                *self,
                packet,
                *old(ctx),
                *final(ctx),
                a,
            ),
    {
        match self {
            Strategy::FakePacket(f) => f.apply(packet, ctx),
            Strategy::HeaderMangle(h) => h.apply(packet, ctx),
            Strategy::Fragmentation(f) => f.apply(packet, ctx),
            Strategy::QuicBlock(q) => q.apply(packet, ctx),
            Strategy::DnsRedirect(d) => d.apply(packet, ctx),
            Strategy::PassiveDpi(d) => d.apply(packet, ctx),
        }
    }
}

/// The name of each strategy.
pub open spec fn spec_strategy_name(s: Strategy) -> Seq<char> {
    match s {
        Strategy::FakePacket(_) => "fake_packet"@,
        Strategy::HeaderMangle(_) => "header_mangle"@,
        Strategy::Fragmentation(_) => "fragmentation"@,
        Strategy::QuicBlock(_) => "quic_block"@,
        Strategy::DnsRedirect(_) => "dns_redirect"@,
        Strategy::PassiveDpi(_) => "passive_dpi"@,
    }
}

/// Every packet inside an action is well formed.
pub open spec fn spec_action_wf(a: StrategyAction) -> bool {
    match a {
        StrategyAction::Pass(p) => p.wf(),
        StrategyAction::Replace(ps) => forall|i: int| 0 <= i < ps@.len() ==> (
        #[trigger] ps@[i]).wf(),
        StrategyAction::Drop => true,
        StrategyAction::InjectBefore(ps, p) => p.wf() && forall|i: int|
            0 <= i < ps@.len() ==> (#[trigger] ps@[i]).wf(),
        StrategyAction::InjectAfter(p, ps) => p.wf() && forall|i: int|
            0 <= i < ps@.len() ==> (#[trigger] ps@[i]).wf(),
    }
}

/// Whether a strategy carries exactly the configuration it was built
/// from: each variant's fields equal the corresponding section.
pub open spec fn spec_strategy_configured(s: Strategy, config: Config) -> bool {
    match s {
        Strategy::FakePacket(f) => {
            &&& f.wrong_checksum == config.strategies.fake_packet.wrong_checksum
            &&& f.wrong_seq == config.strategies.fake_packet.wrong_seq
            &&& f.ttl == config.strategies.fake_packet.ttl
            &&& f.auto_ttl == config.strategies.fake_packet.auto_ttl
            &&& f.min_ttl_hops == config.strategies.fake_packet.min_ttl_hops
            &&& f.resend_count == config.strategies.fake_packet.resend_count
        },
        Strategy::HeaderMangle(h) => {
            &&& h.host_replace == config.strategies.header_mangle.host_replace
            &&& h.host_remove_space == config.strategies.header_mangle.host_remove_space
            &&& h.host_mix_case == config.strategies.header_mangle.host_mix_case
            &&& h.additional_space == config.strategies.header_mangle.additional_space
        },
        Strategy::Fragmentation(f) => {
            &&& f.http_size == config.strategies.fragmentation.http_size
            &&& f.https_size == config.strategies.fragmentation.https_size
            &&& f.native_split == config.strategies.fragmentation.native_split
            &&& f.reverse_order == config.strategies.fragmentation.reverse_order
            &&& f.by_sni == config.strategies.fragmentation.by_sni
            &&& f.http_persistent == config.strategies.fragmentation.http_persistent
        },
        Strategy::QuicBlock(q) => q.min_payload_size == 1200,
        Strategy::PassiveDpi(d) => d.ip_ids@ == config.strategies.passive_dpi.ip_ids@,
        Strategy::DnsRedirect(d) => {
            &&& config.dns.ipv4_upstream == Some(d.upstream_addr)
            &&& d.upstream_port == (match config.dns.ipv4_port {
                Option::Some(p) => p,
                Option::None => 53u16,
            })
        },
    }
}

/// Builder that assembles the enabled strategies from a configuration.
pub struct StrategyBuilder;

impl StrategyBuilder {
    /// The enabled strategies, in insertion order; the pipeline sorts
    /// them by priority.
    pub fn from_config(config: &Config) -> (r: Vec<Strategy>)
        ensures
            config.strategies.fake_packet.enabled ==> (exists|i: int|
                0 <= i < r@.len() && (#[trigger] r@[i]) is FakePacket),
            config.strategies.header_mangle.enabled ==> (exists|i: int|
                0 <= i < r@.len() && (#[trigger] r@[i]) is HeaderMangle),
            config.strategies.fragmentation.enabled ==> (exists|i: int|
                0 <= i < r@.len() && (#[trigger] r@[i]) is Fragmentation),
            config.strategies.quic_block.enabled ==> (exists|i: int|
                0 <= i < r@.len() && (#[trigger] r@[i]) is QuicBlock),
            config.strategies.passive_dpi.enabled ==> (exists|i: int|
                0 <= i < r@.len() && (#[trigger] r@[i]) is PassiveDpi),
            (config.dns.enabled && config.dns.ipv4_upstream is Some) ==> (exists|i: int|
                0 <= i < r@.len() && (#[trigger] r@[i]) is DnsRedirect),
            forall|i: int|
                0 <= i < r@.len() ==> spec_strategy_configured(#[trigger] r@[i], *config),
            r@.len() == (if config.strategies.fake_packet.enabled {
                1int
            } else {
                0int
            }) + (if config.strategies.header_mangle.enabled {
                1int
            } else {
                0int
            }) + (if config.strategies.fragmentation.enabled {
                1int
            } else {
                0int
            }) + (if config.strategies.quic_block.enabled {
                1int
            } else {
                0int
            }) + (if config.strategies.passive_dpi.enabled {
                1int
            } else {
                0int
            }) + (if config.dns.enabled && config.dns.ipv4_upstream is Some {
                1int
            } else {
                0int
            }),
    {
        let mut strategies: Vec<Strategy> = Vec::new();
        if config.strategies.fake_packet.enabled {
            strategies.push(
                Strategy::FakePacket(
                    FakePacketStrategy::from_config(&config.strategies.fake_packet),
                ),
            );
        }
        let ghost n1 = strategies@.len();
        if config.strategies.header_mangle.enabled {
            strategies.push(
                Strategy::HeaderMangle(
                    HeaderMangleStrategy::from_config(&config.strategies.header_mangle),
                ),
            );
        }
        let ghost n2 = strategies@.len();
        if config.strategies.fragmentation.enabled {
            strategies.push(
                Strategy::Fragmentation(
                    FragmentationStrategy::from_config(&config.strategies.fragmentation),
                ),
            );
        }
        let ghost n3 = strategies@.len();
        if config.strategies.quic_block.enabled {
            strategies.push(Strategy::QuicBlock(QuicBlockStrategy::new()));
        }
        let ghost n4 = strategies@.len();
        if config.strategies.passive_dpi.enabled {
            let ids = config.strategies.passive_dpi.ip_ids.clone();
            proof {
                assert(ids@ =~= config.strategies.passive_dpi.ip_ids@);
            }
            strategies.push(Strategy::PassiveDpi(PassiveDpiStrategy::from_ids(ids)));
        }
        let ghost n5 = strategies@.len();
        if config.dns.enabled {
            if let Some(upstream) = config.dns.ipv4_upstream {
                let port = match config.dns.ipv4_port {
                    Some(p) => p,
                    None => 53,
                };
                strategies.push(Strategy::DnsRedirect(DnsRedirectStrategy::new(upstream, port)));
            }
        }
        proof {
            if config.strategies.fake_packet.enabled {
                assert(strategies@[0] is FakePacket);
            }
            if config.strategies.header_mangle.enabled {
                assert(strategies@[n1 as int] is HeaderMangle);
            }
            if config.strategies.fragmentation.enabled {
                assert(strategies@[n2 as int] is Fragmentation);
            }
            if config.strategies.quic_block.enabled {
                assert(strategies@[n3 as int] is QuicBlock);
            }
            if config.strategies.passive_dpi.enabled {
                assert(strategies@[n4 as int] is PassiveDpi);
            }
            if config.dns.enabled && config.dns.ipv4_upstream is Some {
                assert(strategies@[n5 as int] is DnsRedirect);
            }
            assert forall|i: int|
                0 <= i < strategies@.len() implies spec_strategy_configured(
                #[trigger] strategies@[i],
                *config,
            ) by {
                if i < n1 {
                } else if i < n2 {
                } else if i < n3 {
                } else if i < n4 {
                } else if i < n5 {
                } else {
                }
            }
        }
        strategies
    }
}

} // verus!

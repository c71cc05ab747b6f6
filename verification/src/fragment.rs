//! Fragmentation: split the first data packet of an HTTP or TLS
//! exchange into two TCP segments, usually sent tail-first, so that a
//! stateless middlebox cannot reassemble the request while the server
//! still can.

use crate::config::FragmentationConfig;
use crate::context::{Context, spec_bypass_ok, bypass_ok};
use crate::error::Error;
use crate::packet::{
    Packet, spec_is_http_request, spec_is_tls_client_hello,
};
use crate::strategy::StrategyAction;
use crate::types::{Direction, IpVersion, Protocol};
use crate::util::spec_be16;
use vstd::prelude::*;

verus! {

/// The fragmentation strategy.
#[derive(Debug)]
pub struct FragmentationStrategy {
    /// HTTP fragment size; 0 disables fragmentation for HTTP.
    pub http_size: u16,
    /// HTTPS fragment size; 0 disables fragmentation for HTTPS.
    pub https_size: u16,
    /// Use native TCP segmentation.
    pub native_split: bool,
    /// Send the fragments in reverse order.
    pub reverse_order: bool,
    /// Fragment at the position of the SNI extension.
    pub by_sni: bool,
    /// Fragment persistent HTTP connections.
    pub http_persistent: bool,
}

/// The first position before `len - 10` where three zero bytes occur,
/// taken as the start of the server-name extension.
pub open spec fn spec_sni_zero_scan(p: Seq<u8>, i: int) -> Option<int>
    decreases p.len() - i,
{
    if i + 10 >= p.len() {
        None
    } else if p[i] == 0 && p[i + 1] == 0 && p[i + 2] == 0 {
        Some(i)
    } else {
        spec_sni_zero_scan(p, i + 1)
    }
}

/// Where `find_sni_fragment_position` splits: the first triple-zero
/// position, in payloads of at least 44 bytes, when splitting by SNI
/// is on.
pub open spec fn spec_sni_fragment_position(s: FragmentationStrategy, p: Seq<u8>) -> Option<
    int,
> {
    if !s.by_sni {
        None
    } else if p.len() < 44 {
        None
    } else {
        spec_sni_zero_scan(p, 0)
    }
}

impl FragmentationStrategy {
    /// A new fragmentation strategy: two-byte fragments, reverse order.
    pub fn new() -> (r: FragmentationStrategy)
        ensures
            r.http_size == 2,
            r.https_size == 2,
            r.native_split,
            r.reverse_order,
            !r.by_sni,
            r.http_persistent,
    {
        FragmentationStrategy {
            http_size: 2,
            https_size: 2,
            native_split: true,
            reverse_order: true,
            by_sni: false,
            http_persistent: true,
        }
    }

    /// A strategy with the configured sizes and flags.
    pub fn from_config(config: &FragmentationConfig) -> (r: FragmentationStrategy)
        ensures
            r.http_size == config.http_size,
            r.https_size == config.https_size,
            r.native_split == config.native_split,
            r.reverse_order == config.reverse_order,
            r.by_sni == config.by_sni,
            r.http_persistent == config.http_persistent,
    {
        FragmentationStrategy {
            http_size: config.http_size,
            https_size: config.https_size,
            native_split: config.native_split,
            reverse_order: config.reverse_order,
            by_sni: config.by_sni,
            http_persistent: config.http_persistent,
        }
    }

    /// The configured fragment size for this packet: the HTTP size on
    /// port 80 traffic, the HTTPS size otherwise.
    pub open spec fn spec_fragment_size(self, p: Packet) -> u16 {
        if p.dst_port == 80 || p.src_port == 80 {
            self.http_size
        } else {
            self.https_size
        }
    }

    /// The configured fragment size for this packet.
    pub fn get_fragment_size(&self, packet: &Packet) -> (r: u16)
        ensures
            r == self.spec_fragment_size(*packet),
    {
        if packet.dst_port == 80 || packet.src_port == 80 {
            self.http_size
        } else {
            self.https_size
        }
    }

    /// The SNI-based fragment position, when splitting by SNI is on:
    /// the first place where three zero bytes follow each other.
    #[verifier::loop_isolation(false)]
    pub fn find_sni_fragment_position(&self, packet: &Packet) -> (r: Option<usize>)
        requires
            packet.wf(),
        ensures
            match r {
                Some(i) => spec_sni_fragment_position(*self, packet.spec_payload()) == Some(
                    i as int,
                ),
                None => spec_sni_fragment_position(*self, packet.spec_payload()) is None,
            },
    {
        if !self.by_sni {
            return None;
        }
        let payload = packet.payload();
        let n = payload.len();
        if n < 44 {
            return None;
        }
        let mut i: usize = 0;
        loop
            invariant
                n == payload@.len(),
                spec_sni_zero_scan(payload@, 0) == spec_sni_zero_scan(payload@, i as int),
            decreases n - i,
        {
            if i >= n || n - i <= 10 {
                return None;
            }
            if payload[i] == 0 && payload[i + 1] == 0 && payload[i + 2] == 0 {
                return Some(i);
            }
            i = i + 1;
        }
    }

    /// Whether the strategy takes the packet: an outbound TCP packet
    /// with data, not a decoy, carrying an HTTP request to port 80 or
    /// a ClientHello to port 443, and not excluded by the filter.
    pub open spec fn spec_should_apply(self, p: Packet, ctx: Context) -> bool {
        &&& !p.is_fake
        &&& p.direction == Direction::Outbound
        &&& p.protocol == Protocol::Tcp
        &&& p.spec_payload().len() > 0
        &&& {
            ||| (p.dst_port == 80 && spec_is_http_request(p.spec_payload()))
            ||| (p.dst_port == 443 && spec_is_tls_client_hello(p.spec_payload()))
        }
        &&& spec_bypass_ok(ctx, p)
    }

    /// Whether the strategy takes the packet.
    pub fn should_apply(&self, packet: &Packet, ctx: &Context) -> (r: bool)
        requires
            packet.wf(),
        ensures
            r == self.spec_should_apply(*packet, *ctx),
    {
        if packet.is_fake {
            return false;
        }
        if !packet.is_outbound() {
            return false;
        }
        if !packet.is_tcp() {
            return false;
        }
        if packet.payload_len() == 0 {
            return false;
        }
        let is_http = packet.dst_port == 80 && packet.is_http_request();
        let is_https = packet.dst_port == 443 && packet.is_tls_client_hello();
        if !is_http && !is_https {
            return false;
        }
        bypass_ok(ctx, packet)
    }

    /// The split offset `apply` uses: the SNI position when splitting
    /// by SNI finds one, else the configured size; positions are
    /// truncated to 16 bits.
    pub open spec fn spec_split_offset(self, p: Packet) -> int {
        if self.by_sni {
            match spec_sni_fragment_position(self, p.spec_payload()) {
                Option::Some(pos) => pos % 65536,
                Option::None => self.spec_fragment_size(p) as int,
            }
        } else {
            self.spec_fragment_size(p) as int
        }
    }

    /// What `apply` does.  With a usable split offset `k`, the packet
    /// is replaced by its two fragments — tail first in reverse order —
    /// whose payloads partition the original at `k`, whose second
    /// fragment's sequence number is advanced by `k` modulo 2^32, whose
    /// IP length fields match their buffers, and the fragment counter
    /// moves; a zero offset or one outside the payload passes the
    /// packet through with the context unchanged.
    pub open spec fn spec_apply_post(
        self,
        packet: Packet,
        c0: Context,
        c1: Context,
        a: StrategyAction,
    ) -> bool {
        &&& crate::strategy::spec_action_wf(a)
        &&& ({
            let k = self.spec_split_offset(packet);
            if 0 < k < packet.spec_payload().len() {
                (a matches StrategyAction::Replace(frags) && {
                    let first_i: int = if self.reverse_order {
                        1int
                    } else {
                        0int
                    };
                    let second_i: int = if self.reverse_order {
                        0int
                    } else {
                        1int
                    };
                    &&& frags@.len() == 2
                    &&& frags@[first_i].wf() && frags@[second_i].wf()
                    &&& Packet::spec_same_meta(packet, frags@[first_i])
                    &&& Packet::spec_same_meta(packet, frags@[second_i])
                    &&& frags@[first_i].spec_payload() == packet.spec_payload().take(k)
                    &&& frags@[second_i].spec_payload() == packet.spec_payload().skip(k)
                    &&& frags@[first_i].spec_tcp_seq() == packet.spec_tcp_seq()
                    &&& (packet.protocol == Protocol::Tcp ==> (
                    frags@[second_i].spec_tcp_seq() matches Some(s) && (
                    packet.spec_tcp_seq() matches Some(s0) && s == ((s0 + k) % 0x1_0000_0000))))
                    &&& (packet.ip_version == IpVersion::V4 ==> spec_be16(frags@[0].data@, 2)
                        == frags@[0].data@.len() % 65536 && spec_be16(frags@[1].data@, 2)
                        == frags@[1].data@.len() % 65536)
                    &&& (packet.ip_version == IpVersion::V6 ==> spec_be16(frags@[0].data@, 4)
                        == (frags@[0].data@.len() - 40) % 65536 && spec_be16(
                        frags@[1].data@,
                        4,
                    ) == (frags@[1].data@.len() - 40) % 65536)
                }) && c1.stats == (crate::context::Stats {
                    packets_fragmented: crate::context::spec_bump(c0.stats.packets_fragmented),
                    ..c0.stats
                }) && c1.tcp_tracker == c0.tcp_tracker && c1.dns_tracker == c0.dns_tracker
                    && c1.domain_filter == c0.domain_filter && c1.blacklist == c0.blacklist
                    && c1.blacklist_enabled == c0.blacklist_enabled && c1.now_ms == c0.now_ms
            } else {
                (a matches StrategyAction::Pass(p) && p == packet) && c1 == c0
            }
        })
    }

    /// Split the packet in two and emit the fragments, tail first when
    /// reverse order is on.  A zero offset, or one not inside the
    /// payload, leaves the packet unchanged.
    #[verifier::rlimit(100)]
    pub fn apply(&self, packet: Packet, ctx: &mut Context) -> (r: Result<StrategyAction, Error>)
        requires
            packet.wf(),
            old(ctx).wf(),
        ensures
            final(ctx).wf(),
            r is Ok,
            r matches Ok(a) ==> self.spec_apply_post(packet, *old(ctx), *final(ctx), a),
    {
        let fragment_size: usize = if self.by_sni {
            match self.find_sni_fragment_position(&packet) {
                Some(pos) => ((pos as u64) % 65536) as usize,
                None => self.get_fragment_size(&packet) as usize,
            }
        } else {
            self.get_fragment_size(&packet) as usize
        };
        proof {
            assert(fragment_size as int == self.spec_split_offset(packet));
        }
        if fragment_size == 0 || fragment_size >= packet.payload_len() {
            return Ok(StrategyAction::Pass(packet));
        }
        let split = packet.split_at_payload(fragment_size);
        match split {
            Ok((first, second)) => {
                if ctx.stats.packets_fragmented < u64::MAX {
                    ctx.stats.packets_fragmented = ctx.stats.packets_fragmented + 1;
                }
                let mut fragments: Vec<Packet> = Vec::new();
                if self.reverse_order {
                    fragments.push(second);
                    fragments.push(first);
                    proof {
                        assert(fragments@[0] == second && fragments@[1] == first);
                    }
                } else {
                    fragments.push(first);
                    fragments.push(second);
                    proof {
                        assert(fragments@[0] == first && fragments@[1] == second);
                    }
                }
                Ok(StrategyAction::Replace(fragments))
            },
            Err(_) => Ok(StrategyAction::Pass(packet)),
        }
    }
}

/// Decoys are never refragmented: a packet marked fake is one the
/// fragmentation strategy refuses, whatever its contents or context.
pub proof fn lemma_fake_not_refragmented(frag: FragmentationStrategy, p: Packet, ctx: Context)
    requires
        p.is_fake,
    ensures
        !frag.spec_should_apply(p, ctx),
{
}

} // verus!

//! Decoy injection: before the real HTTP request or ClientHello, the
//! engine sends fabricated packets on the same connection that the
//! middlebox will classify but the server will never act on — their
//! TTL expires en route, their checksum is wrong, or their sequence
//! numbers lie in the past.

use crate::config::{AutoTtlConfig, FakePacketConfig};
use crate::context::{Context, spec_bypass_ok, bypass_ok};
use crate::error::Error;
use crate::packet::{Packet, spec_is_http_request, spec_is_tls_client_hello};
use crate::strategy::StrategyAction;
use crate::types::{Direction, Protocol};
use crate::util::spec_be16;
use vstd::prelude::*;
use vstd::string::*;

verus! {

/// The decoy-injection strategy.
#[derive(Debug)]
pub struct FakePacketStrategy {
    /// Send a decoy with a damaged TCP checksum.
    pub wrong_checksum: bool,
    /// Send a decoy with shifted SEQ/ACK numbers.
    pub wrong_seq: bool,
    /// Fixed decoy TTL; `None` selects automatic computation.
    pub ttl: Option<u8>,
    /// Auto-TTL parameters.
    pub auto_ttl: Option<AutoTtlConfig>,
    /// Minimum hop count below which no decoy is sent.
    pub min_ttl_hops: Option<u8>,
    /// How many times the decoy set is sent.
    pub resend_count: u8,
}

/// The auto-TTL computation.  From the TTL `t` observed on the
/// SYN-ACK, estimate the sender's initial TTL (128 when 98 < t < 128,
/// 64 when 34 < t < 64, otherwise give up) and take the hop count as
/// the difference.  Below `min_hops` hops give up.  The decoy TTL is
/// the hop count less `a2`; when that is below `a2` on a short path
/// (at most 9 hops) it is refined to the hop count less `a1` less
/// `(a2 - a1)·hops / 10`.  The result is capped at `max`; zero means
/// give up.
pub open spec fn spec_auto_ttl(
    conn_ttl: u8,
    a1: u8,
    a2: u8,
    max: u8,
    min_hops: Option<u8>,
) -> Option<u8> {
    let nhops: int = if 98 < conn_ttl < 128 {
        128 - conn_ttl
    } else if 34 < conn_ttl < 64 {
        64 - conn_ttl
    } else {
        0
    };
    if nhops == 0 {
        None
    } else if min_hops matches Some(m) && nhops < m {
        None
    } else {
        let fake0: int = if nhops >= a2 {
            nhops - a2
        } else {
            0
        };
        let fake1: int = if fake0 < a2 && nhops <= 9 {
            let scale: int = (if a2 >= a1 {
                a2 - a1
            } else {
                0
            }) * nhops / 10;
            let base: int = if nhops >= a1 {
                nhops - a1
            } else {
                0
            };
            if base >= scale {
                base - scale
            } else {
                0
            }
        } else {
            fake0
        };
        let fake2: int = if fake1 > max {
            max as int
        } else {
            fake1
        };
        if fake2 > 0 {
            Some(fake2 as u8)
        } else {
            None
        }
    }
}

/// What TTL the decoys get: the fixed TTL when configured; else, with
/// auto-TTL on and a recorded connection TTL, the auto computation;
/// else the fallback of 8, low enough to die before most servers.
pub open spec fn spec_calculate_ttl(
    s: FakePacketStrategy,
    conn_ttl: Option<u8>,
) -> Option<u8> {
    match s.ttl {
        Option::Some(t) => Some(t),
        Option::None => match s.auto_ttl {
            Option::Some(cfg) => match conn_ttl {
                Option::Some(t) => spec_auto_ttl(t, cfg.a1, cfg.a2, cfg.max, s.min_ttl_hops),
                Option::None => Some(8u8),
            },
            Option::None => Some(8u8),
        },
    }
}

/// Whether the decoy set includes a TTL-sabotage variant.
pub open spec fn spec_has_ttl_variant(s: FakePacketStrategy) -> bool {
    s.ttl is Some || s.auto_ttl is Some
}

/// How many decoy variants one round emits.
pub open spec fn spec_variant_count(s: FakePacketStrategy) -> int {
    (if spec_has_ttl_variant(s) {
        1int
    } else {
        0int
    }) + (if s.wrong_checksum {
        1int
    } else {
        0int
    }) + (if s.wrong_seq {
        1int
    } else {
        0int
    })
}

/// What one decoy looks like: its relation to the original packet.
/// Every decoy is marked fake, keeps the original's addresses, ports
/// and direction, and carries the benign template payload.
pub open spec fn spec_decoy_base(s: FakePacketStrategy, original: Packet, f: Packet) -> bool {
    &&& f.wf()
    &&& f.is_fake
    &&& f.direction == original.direction
    &&& f.ip_version == original.ip_version
    &&& f.protocol == original.protocol
    &&& f.src_addr == original.src_addr
    &&& f.dst_addr == original.dst_addr
    &&& f.src_port == original.src_port
    &&& f.dst_port == original.dst_port
    &&& (original.dst_port == 443 ==> f.spec_payload().len() == 517 && f.spec_payload()[0]
        == 0x16)
    &&& (original.dst_port != 443 ==> f.spec_payload() == spec_fake_http_payload())
}

/// The decoy at slot `j` of a round: first the TTL variant when
/// present, then the damaged-checksum variant, then the shifted-SEQ
/// variant.
pub open spec fn spec_decoy_at(
    s: FakePacketStrategy,
    original: Packet,
    t: u8,
    j: int,
    f: Packet,
) -> bool {
    let ttl_slots: int = if spec_has_ttl_variant(s) {
        1int
    } else {
        0int
    };
    let chk_slots: int = if s.wrong_checksum {
        1int
    } else {
        0int
    };
    &&& spec_decoy_base(s, original, f)
    &&& (j < ttl_slots ==> f.ttl == t && f.spec_tcp_seq() == original.spec_tcp_seq()
        && f.spec_tcp_ack() == original.spec_tcp_ack())
    &&& (ttl_slots <= j < ttl_slots + chk_slots ==> f.ttl == 64 && f.spec_tcp_seq()
        == original.spec_tcp_seq() && f.spec_tcp_ack() == original.spec_tcp_ack() && (
    original.protocol == Protocol::Tcp ==> spec_be16(f.data@, f.ip_header_len + 16) == 65535))
    &&& (ttl_slots + chk_slots <= j ==> f.ttl == 64 && (original.protocol == Protocol::Tcp
        ==> ((f.spec_tcp_seq() matches Some(sq) && (original.spec_tcp_seq() matches Some(s0)
        && sq == ((s0 - 10000 + 0x1_0000_0000) % 0x1_0000_0000))) && (f.spec_tcp_ack()
        matches Some(aq) && (original.spec_tcp_ack() matches Some(a0) && aq == ((a0 - 66000
        + 0x1_0000_0000) % 0x1_0000_0000))))))
}

/// The benign HTTP request template carried by HTTP decoys:
/// a GET for the front page of www.w3.org.
pub open spec fn spec_fake_http_payload() -> Seq<u8> {
    seq![
        71u8, 69u8, 84u8, 32u8, 47u8, 32u8, 72u8, 84u8, 84u8, 80u8, 47u8, 49u8,
        46u8, 49u8, 13u8, 10u8, 72u8, 111u8, 115u8, 116u8, 58u8, 32u8, 119u8, 119u8,
        119u8, 46u8, 119u8, 51u8, 46u8, 111u8, 114u8, 103u8, 13u8, 10u8, 85u8, 115u8,
        101u8, 114u8, 45u8, 65u8, 103u8, 101u8, 110u8, 116u8, 58u8, 32u8, 99u8, 117u8,
        114u8, 108u8, 47u8, 55u8, 46u8, 54u8, 53u8, 46u8, 51u8, 13u8, 10u8, 13u8,
        10u8,
    ]
}

impl FakePacketStrategy {
    /// A new strategy with both sabotage modes on and one round.
    pub fn new() -> (r: FakePacketStrategy)
        ensures
            r.wrong_checksum,
            r.wrong_seq,
            r.ttl is None,
            r.auto_ttl is None,
            r.min_ttl_hops == Some(3u8),
            r.resend_count == 1,
    {
        FakePacketStrategy {
            wrong_checksum: true,
            wrong_seq: true,
            ttl: None,
            auto_ttl: None,
            min_ttl_hops: Some(3),
            resend_count: 1,
        }
    }

    /// A strategy with the configured modes and parameters.
    pub fn from_config(config: &FakePacketConfig) -> (r: FakePacketStrategy)
        ensures
            r.wrong_checksum == config.wrong_checksum,
            r.wrong_seq == config.wrong_seq,
            r.ttl == config.ttl,
            r.auto_ttl == config.auto_ttl,
            r.min_ttl_hops == config.min_ttl_hops,
            r.resend_count == config.resend_count,
    {
        FakePacketStrategy {
            wrong_checksum: config.wrong_checksum,
            wrong_seq: config.wrong_seq,
            ttl: config.ttl,
            auto_ttl: config.auto_ttl,
            min_ttl_hops: config.min_ttl_hops,
            resend_count: config.resend_count,
        }
    }

    /// The auto-TTL computation on a recorded connection TTL.
    pub fn auto_ttl_calculate(&self, conn_ttl: u8, config: &AutoTtlConfig) -> (r: Option<u8>)
        ensures
            r == spec_auto_ttl(conn_ttl, config.a1, config.a2, config.max, self.min_ttl_hops),
    {
        let nhops: u8 = if conn_ttl > 98 && conn_ttl < 128 {
            128 - conn_ttl
        } else if conn_ttl > 34 && conn_ttl < 64 {
            64 - conn_ttl
        } else {
            return None;
        };
        if let Some(min_hops) = self.min_ttl_hops {
            if nhops < min_hops {
                return None;
            }
        }
        let mut fake_ttl: u8 = if nhops >= config.a2 {
            nhops - config.a2
        } else {
            0
        };
        if fake_ttl < config.a2 && nhops <= 9 {
            let spread: u16 = if config.a2 >= config.a1 {
                (config.a2 - config.a1) as u16
            } else {
                0
            };
            assert(spread <= 255);
            proof {
                assert((spread as int) * (nhops as int) <= 255 * 255) by (nonlinear_arith)
                    requires
                        spread <= 255,
                        nhops <= 255,
                ;
            }
            let scale32: u32 = (spread as u32) * (nhops as u32) / 10;
            assert(scale32 <= 6502);
            let scale: u16 = scale32 as u16;
            let base: u8 = if nhops >= config.a1 {
                nhops - config.a1
            } else {
                0
            };
            fake_ttl = if (base as u16) >= scale {
                base - (scale as u8)
            } else {
                0
            };
        }
        if fake_ttl > config.max {
            fake_ttl = config.max;
        }
        if fake_ttl > 0 {
            Some(fake_ttl)
        } else {
            None
        }
    }

    /// The TTL the decoys get, consulting the hop table for auto-TTL.
    pub fn calculate_ttl(&self, ctx: &mut Context, packet: &Packet) -> (r: Option<u8>)
        requires
            old(ctx).wf(),
        ensures
            final(ctx).wf(),
            Context::spec_same_except_tcp(*old(ctx), *final(ctx)),
            r == spec_calculate_ttl(
                *self,
                crate::conntrack::spec_hop_lookup(
                    old(ctx).tcp_tracker.entries@,
                    (crate::conntrack::ConnKey {
                        server_ip: packet.dst_addr,
                        server_port: packet.dst_port,
                        client_ip: packet.src_addr,
                        client_port: packet.src_port,
                    }),
                    old(ctx).now_ms,
                    old(ctx).tcp_tracker.timeout_ms,
                ),
            ),
    {
        if let Some(t) = self.ttl {
            return Some(t);
        }
        let auto = self.auto_ttl;
        match auto {
            Some(cfg) => {
                let conn = ctx.get_connection_ttl(packet);
                match conn {
                    Some(conn_ttl) => self.auto_ttl_calculate(conn_ttl, &cfg),
                    None => Some(8),
                }
            },
            None => Some(8),
        }
    }

    /// The benign HTTP request template.
    fn fake_http_payload() -> (r: Vec<u8>)
        ensures
            r@ == spec_fake_http_payload(),
            r@.len() == 61,
    {
        let r: Vec<u8> = vec![
        71u8, 69u8, 84u8, 32u8, 47u8, 32u8, 72u8, 84u8, 84u8, 80u8, 47u8, 49u8,
        46u8, 49u8, 13u8, 10u8, 72u8, 111u8, 115u8, 116u8, 58u8, 32u8, 119u8, 119u8,
        119u8, 46u8, 119u8, 51u8, 46u8, 111u8, 114u8, 103u8, 13u8, 10u8, 85u8, 115u8,
        101u8, 114u8, 45u8, 65u8, 103u8, 101u8, 110u8, 116u8, 58u8, 32u8, 99u8, 117u8,
        114u8, 108u8, 47u8, 55u8, 46u8, 54u8, 53u8, 46u8, 51u8, 13u8, 10u8, 13u8,
        10u8,
        ];
        proof {
            assert(r@ =~= spec_fake_http_payload());
        }
        r
    }

    /// A decoy carrying the benign HTTP request.
    fn create_fake_http(&self, original: &Packet, ttl: u8, wrong_seq: bool) -> (r: Packet)
        requires
            original.wf(),
        ensures
            spec_decoy_common(*original, r, ttl, wrong_seq),
            r.spec_payload() == spec_fake_http_payload(),
    {
        let payload = Self::fake_http_payload();
        self.create_fake_packet(original, payload.as_slice(), ttl, wrong_seq)
    }

    /// A decoy carrying a complete benign ClientHello whose server
    /// name is www.w3.org.
    fn create_fake_https(&self, original: &Packet, ttl: u8, wrong_seq: bool) -> (r: Packet)
        requires
            original.wf(),
        ensures
            spec_decoy_common(*original, r, ttl, wrong_seq),
            r.spec_payload().len() == 517,
            r.spec_payload()[0] == 0x16,
    {
        let payload = fake_tls_payload();
        self.create_fake_packet(original, payload.as_slice(), ttl, wrong_seq)
    }

    /// A decoy: the original's headers, the template payload, the
    /// fake marker, the given TTL, optionally shifted SEQ/ACK, and
    /// zeroed checksums.
    fn create_fake_packet(
        &self,
        original: &Packet,
        payload: &[u8],
        ttl: u8,
        wrong_seq: bool,
    ) -> (r: Packet)
        requires
            original.wf(),
            payload@.len() <= 100000,
        ensures
            spec_decoy_common(*original, r, ttl, wrong_seq),
            r.spec_payload() == payload@,
    {
        let built = original.with_new_payload(payload);
        let mut fake = match built {
            Ok(p) => p,
            Err(_) => {
                proof {
                    assert(false);
                }
                vstd::pervasive::unreached()
            },
        };
        fake.set_is_fake(true);
        fake.set_ttl(ttl);
        if wrong_seq {
            shift_seq_back(&mut fake);
        }
        fake.zero_checksums();
        fake
    }

    /// Damage the TCP checksum: decrement the stored value by one so
    /// the server discards the segment.
    fn damage_checksum(&self, packet: &mut Packet)
        requires
            old(packet).wf(),
            old(packet).protocol == Protocol::Tcp,
        ensures
            final(packet).wf(),
            Packet::spec_same_meta(*old(packet), *final(packet)),
            final(packet).ttl == old(packet).ttl,
            final(packet).spec_payload() == old(packet).spec_payload(),
            final(packet).spec_tcp_seq() == old(packet).spec_tcp_seq(),
            final(packet).spec_tcp_ack() == old(packet).spec_tcp_ack(),
            spec_be16(final(packet).data@, final(packet).ip_header_len + 16) == (spec_be16(
                old(packet).data@,
                old(packet).ip_header_len + 16,
            ) + 65535) % 65536,
    {
        let off = packet.ip_header_len + 16;
        let current = crate::util::read_be16(&packet.data, off);
        let damaged = current.wrapping_sub(1);
        crate::util::write_be16(&mut packet.data, off, damaged);
        proof {
            lemma_checksum_bytes_below_payload(*old(packet), *packet);
            assert(damaged == (current + 65535) % 65536) by {
                if current == 0 {
                    assert(damaged == 65535);
                } else {
                    assert(damaged == current - 1);
                    assert((current + 65535) % 65536 == current - 1) by {
                        vstd::arithmetic::div_mod::lemma_small_mod(
                            (current - 1) as nat,
                            65536,
                        );
                        vstd::arithmetic::div_mod::lemma_mod_multiples_vanish(
                            1,
                            current - 1,
                            65536,
                        );
                    }
                }
            }
        }
    }

    /// Whether the strategy takes the packet: an outbound TCP packet
    /// with data, not itself a decoy, carrying an HTTP request to
    /// port 80 or a ClientHello to port 443, and not excluded by the
    /// filter.
    pub open spec fn spec_should_apply(self, p: Packet, ctx: Context) -> bool {
        &&& !p.is_fake
        &&& p.direction == Direction::Outbound
        &&& p.protocol == Protocol::Tcp
        &&& p.spec_payload().len() > 0
        &&& {
            ||| (p.dst_port == 80 && spec_is_http_request(p.spec_payload()))
            ||| (p.dst_port == 443 && spec_is_tls_client_hello(p.spec_payload()))
        }
        &&& spec_bypass_ok(ctx, p)
    }

    /// Whether the strategy takes the packet.
    pub fn should_apply(&self, packet: &Packet, ctx: &Context) -> (r: bool)
        requires
            packet.wf(),
        ensures
            r == self.spec_should_apply(*packet, *ctx),
    {
        if packet.is_fake {
            return false;
        }
        if !packet.is_outbound() || !packet.is_tcp() {
            return false;
        }
        if packet.payload_len() == 0 {
            return false;
        }
        let is_http = packet.dst_port == 80 && packet.is_http_request();
        let is_https = packet.dst_port == 443 && packet.is_tls_client_hello();
        if !is_http && !is_https {
            return false;
        }
        bypass_ok(ctx, packet)
    }

    /// What `apply` does.  When no decoy TTL can be computed the
    /// packet passes untouched.  Otherwise the original is preceded by
    /// `resend_count` rounds of the configured decoy variants, each
    /// characterised by its slot, and the decoy counter grows by their
    /// number; the tables, filter and clock are untouched apart from
    /// the hop-table lookup that auto-TTL performs.
    pub open spec fn spec_apply_post(
        self,
        packet: Packet,
        c0: Context,
        c1: Context,
        a: StrategyAction,
    ) -> bool {
        let t = spec_calculate_ttl(
            self,
            crate::conntrack::spec_hop_lookup(
                c0.tcp_tracker.entries@,
                (crate::conntrack::ConnKey {
                    server_ip: packet.dst_addr,
                    server_port: packet.dst_port,
                    client_ip: packet.src_addr,
                    client_port: packet.src_port,
                }),
                c0.now_ms,
                c0.tcp_tracker.timeout_ms,
            ),
        );
        let n_fakes = self.resend_count * spec_variant_count(self);
        &&& crate::strategy::spec_action_wf(a)
        &&& c1.dns_tracker == c0.dns_tracker
        &&& c1.domain_filter == c0.domain_filter
        &&& c1.blacklist == c0.blacklist
        &&& c1.blacklist_enabled == c0.blacklist_enabled
        &&& c1.now_ms == c0.now_ms
        &&& c1.tcp_tracker.timeout_ms == c0.tcp_tracker.timeout_ms
        &&& match t {
            Option::None => (a matches StrategyAction::Pass(p) && p == packet) && c1.stats
                == c0.stats,
            Option::Some(t) => (a matches StrategyAction::InjectBefore(fakes, p) && {
                &&& p == packet
                &&& fakes@.len() == n_fakes
                &&& forall|i: int|
                    0 <= i < fakes@.len() ==> spec_decoy_at(
                        self,
                        packet,
                        t,
                        i % spec_variant_count(self),
                        #[trigger] fakes@[i],
                    )
            }) && c1.stats == (crate::context::Stats {
                fake_packets_sent: if c0.stats.fake_packets_sent + n_fakes <= u64::MAX {
                    (c0.stats.fake_packets_sent + n_fakes) as u64
                } else {
                    c0.stats.fake_packets_sent
                },
                ..c0.stats
            }),
        }
    }

    /// Build the decoys and inject them before the real packet.
    #[verifier::loop_isolation(false)]
    #[verifier::rlimit(100)]
    pub fn apply(&self, packet: Packet, ctx: &mut Context) -> (r: Result<StrategyAction, Error>)
        requires
            packet.wf(),
            old(ctx).wf(),
        ensures
            final(ctx).wf(),
            r is Ok,
            r matches Ok(a) ==> self.spec_apply_post(packet, *old(ctx), *final(ctx), a),
    {
        let ttl = match self.calculate_ttl(ctx, &packet) {
            Some(t) => t,
            None => {
                return Ok(StrategyAction::Pass(packet));
            },
        };
        let is_https = packet.dst_port == 443;
        let ghost nv = spec_variant_count(*self);
        let mut fake_packets: Vec<Packet> = Vec::new();
        let mut round: u8 = 0;
        while round < self.resend_count
            invariant
                round <= self.resend_count,
                fake_packets@.len() == round * nv,
                forall|i: int|
                    0 <= i < fake_packets@.len() ==> spec_decoy_at(
                        *self,
                        packet,
                        ttl,
                        i % nv,
                        #[trigger] fake_packets@[i],
                    ),
            decreases self.resend_count - round,
        {
            let ghost base = fake_packets@.len() as int;
            proof {
                assert(base == round * nv);
                if nv > 0 {
                    assert(base % nv == 0) by {
                        vstd::arithmetic::div_mod::lemma_mod_multiples_basic(round as int, nv);
                    }
                }
            }
            if self.ttl.is_some() || self.auto_ttl.is_some() {
                let fake = if is_https {
                    self.create_fake_https(&packet, ttl, false)
                } else {
                    self.create_fake_http(&packet, ttl, false)
                };
                fake_packets.push(fake);
            }
            if self.wrong_checksum {
                let mut fake = if is_https {
                    self.create_fake_https(&packet, 64, false)
                } else {
                    self.create_fake_http(&packet, 64, false)
                };
                if fake.is_tcp() {
                    self.damage_checksum(&mut fake);
                }
                fake_packets.push(fake);
            }
            if self.wrong_seq {
                let fake = if is_https {
                    self.create_fake_https(&packet, 64, true)
                } else {
                    self.create_fake_http(&packet, 64, true)
                };
                fake_packets.push(fake);
            }
            proof {
                assert forall|i: int| 0 <= i < fake_packets@.len() implies spec_decoy_at(
                    *self,
                    packet,
                    ttl,
                    i % nv,
                    #[trigger] fake_packets@[i],
                ) by {
                    if i >= base && nv > 0 {
                        vstd::arithmetic::div_mod::lemma_mod_multiples_vanish(
                            round as int,
                            i - base,
                            nv,
                        );
                        vstd::arithmetic::div_mod::lemma_small_mod((i - base) as nat, nv as nat);
                    }
                }
                assert(fake_packets@.len() == (round + 1) * nv) by (nonlinear_arith)
                    requires
                        fake_packets@.len() == base + nv,
                        base == round * nv,
                ;
            }
            round = round + 1;
        }
        let count = fake_packets.len();
        if ctx.stats.fake_packets_sent <= u64::MAX - (count as u64) {
            ctx.stats.fake_packets_sent = ctx.stats.fake_packets_sent + (count as u64);
        }
        Ok(StrategyAction::InjectBefore(fake_packets, packet))
    }
}

/// What every freshly created decoy satisfies, before any checksum
/// damage: marked fake, original addressing, the given TTL, and —
/// when shifting is on — SEQ/ACK moved into the past.
pub open spec fn spec_decoy_common(original: Packet, f: Packet, ttl: u8, wrong_seq: bool) -> bool {
    &&& f.wf()
    &&& f.is_fake
    &&& f.direction == original.direction
    &&& f.ip_version == original.ip_version
    &&& f.protocol == original.protocol
    &&& f.src_addr == original.src_addr
    &&& f.dst_addr == original.dst_addr
    &&& f.src_port == original.src_port
    &&& f.dst_port == original.dst_port
    &&& f.ip_header_len == original.ip_header_len
    &&& f.ttl == ttl
    &&& (!wrong_seq ==> f.spec_tcp_seq() == original.spec_tcp_seq() && f.spec_tcp_ack()
        == original.spec_tcp_ack())
    &&& (wrong_seq && original.protocol == Protocol::Tcp ==> ((f.spec_tcp_seq() matches Some(sq)
        && (original.spec_tcp_seq() matches Some(s0) && sq == ((s0 - 10000 + 0x1_0000_0000)
        % 0x1_0000_0000))) && (f.spec_tcp_ack() matches Some(aq) && (original.spec_tcp_ack()
        matches Some(a0) && aq == ((a0 - 66000 + 0x1_0000_0000) % 0x1_0000_0000)))))
    &&& (original.protocol == Protocol::Tcp ==> spec_be16(f.data@, f.ip_header_len + 16) == 0)
}

/// Byte updates at the checksum field stay below the payload.
proof fn lemma_checksum_bytes_below_payload(a: Packet, b: Packet)
    requires
        a.wf(),
        a.protocol == Protocol::Tcp,
        Packet::spec_same_meta(a, b),
        b.data@.len() == a.data@.len(),
        forall|i: int|
            0 <= i < a.data@.len() && i != a.ip_header_len + 16 && i != a.ip_header_len + 17
                ==> a.data@[i] == b.data@[i],
    ensures
        b.wf(),
        b.spec_payload() == a.spec_payload(),
        b.spec_tcp_seq() == a.spec_tcp_seq(),
        b.spec_tcp_ack() == a.spec_tcp_ack(),
{
    assert(b.spec_payload() =~= a.spec_payload());
}

/// Shift a decoy's SEQ back by 10000 and its ACK back by 66000,
/// modulo 2^32.  Does nothing on a non-TCP packet.
fn shift_seq_back(fake: &mut Packet)
    requires
        old(fake).wf(),
    ensures
        final(fake).wf(),
        Packet::spec_same_meta(*old(fake), *final(fake)),
        final(fake).ttl == old(fake).ttl,
        final(fake).spec_payload() == old(fake).spec_payload(),
        old(fake).protocol == Protocol::Tcp ==> ((final(fake).spec_tcp_seq() matches Some(sq)
            && (old(fake).spec_tcp_seq() matches Some(s0) && sq == ((s0 - 10000
            + 0x1_0000_0000) % 0x1_0000_0000))) && (final(fake).spec_tcp_ack() matches Some(aq)
            && (old(fake).spec_tcp_ack() matches Some(a0) && aq == ((a0 - 66000
            + 0x1_0000_0000) % 0x1_0000_0000)))),
        old(fake).protocol != Protocol::Tcp ==> *final(fake) == *old(fake),
{
    if let Some(seq) = fake.tcp_seq() {
        let shifted = seq.wrapping_sub(10000);
        proof {
            lemma_wrapping_back(seq, 10000);
        }
        fake.set_tcp_seq(shifted);
    }
    if let Some(ack) = fake.tcp_ack_num() {
        let shifted = ack.wrapping_sub(66000);
        proof {
            lemma_wrapping_back(ack, 66000);
        }
        fake.set_tcp_ack(shifted);
    }
}

/// Wrapping subtraction moves a sequence number back modulo 2^32.
proof fn lemma_wrapping_back(x: u32, d: u32)
    ensures
        vstd::wrapping::u32_specs::wrapping_sub(x, d) == ((x - d + 0x1_0000_0000)
            % 0x1_0000_0000),
{
    let m: int = 0x1_0000_0000;
    let w = vstd::wrapping::u32_specs::wrapping_sub(x, d);
    if x - d < 0 {
        vstd::arithmetic::div_mod::lemma_small_mod((x - d + m) as nat, m as nat);
    } else {
        vstd::arithmetic::div_mod::lemma_mod_multiples_vanish(1, x - d, m);
        vstd::arithmetic::div_mod::lemma_small_mod((x - d) as nat, m as nat);
    }
}

/// The complete benign ClientHello template, 517 bytes, with server
/// name www.w3.org.
fn fake_tls_payload() -> (r: Vec<u8>)
    ensures
        r@.len() == 517,
        r@[0] == 0x16,
        r@[1] == 0x03,
        r@[2] == 0x01,
{
    let r: Vec<u8> = vec![
        0x16u8, 0x03, 0x01, 0x02, 0x00, 0x01, 0x00, 0x01, 0xfc, 0x03, 0x03, 0x9a, 0x8f, 0xa7,
        0x6a, 0x5d, 0x57, 0xf3, 0x62, 0x19, 0xbe, 0x46, 0x82, 0x45, 0xe2, 0x59, 0x5c, 0xb4,
        0x48, 0x31, 0x12, 0x15, 0x14, 0x79, 0x2c, 0xaa, 0xcd, 0xea, 0xda, 0xf0, 0xe1, 0xfd,
        0xbb, 0x20, 0xf4, 0x83, 0x2a, 0x94, 0xf1, 0x48, 0x3b, 0x9d, 0xb6, 0x74, 0xba, 0x3c,
        0x81, 0x63, 0xbc, 0x18, 0xcc, 0x14, 0x45, 0x57, 0x6c, 0x80, 0xf9, 0x25, 0xcf, 0x9c,
        0x86, 0x60, 0x50, 0x31, 0x2e, 0xe9, 0x00, 0x22, 0x13, 0x01, 0x13, 0x03, 0x13, 0x02,
        0xc0, 0x2b, 0xc0, 0x2f, 0xcc, 0xa9, 0xcc, 0xa8, 0xc0, 0x2c, 0xc0, 0x30, 0xc0, 0x0a,
        0xc0, 0x09, 0xc0, 0x13, 0xc0, 0x14, 0x00, 0x33, 0x00, 0x39, 0x00, 0x2f, 0x00, 0x35,
        0x01, 0x00, 0x01, 0x91, 0x00, 0x00, 0x00, 0x0f, 0x00, 0x0d, 0x00, 0x00, 0x0a, 0x77,
        0x77, 0x77, 0x2e, 0x77, 0x33, 0x2e, 0x6f, 0x72, 0x67, 0x00, 0x17, 0x00, 0x00, 0xff,
        0x01, 0x00, 0x01, 0x00, 0x00, 0x0a, 0x00, 0x0e, 0x00, 0x0c, 0x00, 0x1d, 0x00, 0x17,
        0x00, 0x18, 0x00, 0x19, 0x01, 0x00, 0x01, 0x01, 0x00, 0x0b, 0x00, 0x02, 0x01, 0x00,
        0x00, 0x23, 0x00, 0x00, 0x00, 0x10, 0x00, 0x0e, 0x00, 0x0c, 0x02, 0x68, 0x32, 0x08,
        0x68, 0x74, 0x74, 0x70, 0x2f, 0x31, 0x2e, 0x31, 0x00, 0x05, 0x00, 0x05, 0x01, 0x00,
        0x00, 0x00, 0x00, 0x00, 0x33, 0x00, 0x6b, 0x00, 0x69, 0x00, 0x1d, 0x00, 0x20, 0xb0,
        0xe4, 0xda, 0x34, 0xb4, 0x29, 0x8d, 0xd3, 0x5c, 0x70, 0xd3, 0xbe, 0xe8, 0xa7, 0x2a,
        0x6b, 0xe4, 0x11, 0x19, 0x8b, 0x18, 0x9d, 0x83, 0x9a, 0x49, 0x7c, 0x83, 0x7f, 0xa9,
        0x03, 0x8c, 0x3c, 0x00, 0x17, 0x00, 0x41, 0x04, 0x4c, 0x04, 0xa4, 0x71, 0x4c, 0x49,
        0x75, 0x55, 0xd1, 0x18, 0x1e, 0x22, 0x62, 0x19, 0x53, 0x00, 0xde, 0x74, 0x2f, 0xb3,
        0xde, 0x13, 0x54, 0xe6, 0x78, 0x07, 0x94, 0x55, 0x0e, 0xb2, 0x6c, 0xb0, 0x03, 0xee,
        0x79, 0xa9, 0x96, 0x1e, 0x0e, 0x98, 0x17, 0x78, 0x24, 0x44, 0x0c, 0x88, 0x80, 0x06,
        0x8b, 0xd4, 0x80, 0xbf, 0x67, 0x7c, 0x37, 0x6a, 0x5b, 0x46, 0x4c, 0xa7, 0x98, 0x6f,
        0xb9, 0x22, 0x00, 0x2b, 0x00, 0x09, 0x08, 0x03, 0x04, 0x03, 0x03, 0x03, 0x02, 0x03,
        0x01, 0x00, 0x0d, 0x00, 0x18, 0x00, 0x16, 0x04, 0x03, 0x05, 0x03, 0x06, 0x03, 0x08,
        0x04, 0x08, 0x05, 0x08, 0x06, 0x04, 0x01, 0x05, 0x01, 0x06, 0x01, 0x02, 0x03, 0x02,
        0x01, 0x00, 0x2d, 0x00, 0x02, 0x01, 0x01, 0x00, 0x1c, 0x00, 0x02, 0x40, 0x01, 0x00,
        0x15, 0x00, 0x96, 0x00, 0x00, 0x00, 0x00, 0x00, 0x00, 0x00, 0x00, 0x00, 0x00, 0x00,
        0x00, 0x00, 0x00, 0x00, 0x00, 0x00, 0x00, 0x00, 0x00, 0x00, 0x00, 0x00, 0x00, 0x00,
        0x00, 0x00, 0x00, 0x00, 0x00, 0x00, 0x00, 0x00, 0x00, 0x00, 0x00, 0x00, 0x00, 0x00,
        0x00, 0x00, 0x00, 0x00, 0x00, 0x00, 0x00, 0x00, 0x00, 0x00, 0x00, 0x00, 0x00, 0x00,
        0x00, 0x00, 0x00, 0x00, 0x00, 0x00, 0x00, 0x00, 0x00, 0x00, 0x00, 0x00, 0x00, 0x00,
        0x00, 0x00, 0x00, 0x00, 0x00, 0x00, 0x00, 0x00, 0x00, 0x00, 0x00, 0x00, 0x00, 0x00,
        0x00, 0x00, 0x00, 0x00, 0x00, 0x00, 0x00, 0x00, 0x00, 0x00, 0x00, 0x00, 0x00, 0x00,
        0x00, 0x00, 0x00, 0x00, 0x00, 0x00, 0x00, 0x00, 0x00, 0x00, 0x00, 0x00, 0x00, 0x00,
        0x00, 0x00, 0x00, 0x00, 0x00, 0x00, 0x00, 0x00, 0x00, 0x00, 0x00, 0x00, 0x00, 0x00,
        0x00, 0x00, 0x00, 0x00, 0x00, 0x00, 0x00, 0x00, 0x00, 0x00, 0x00, 0x00, 0x00, 0x00,
        0x00, 0x00, 0x00, 0x00, 0x00, 0x00, 0x00, 0x00, 0x00, 0x00, 0x00, 0x00, 0x00,
    ];
    proof {
        assert(r@.len() == 517);
    }
    r
}

} // verus!

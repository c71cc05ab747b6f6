//! HTTP header manipulation: length-preserving mutations of the Host
//! header that confuse naive header matching.  The length-shortening
//! mutations (removing the space after the colon, adding a space after
//! the method) are accepted in configuration but deliberately
//! unsupported, as they would require sequence-number fix-ups.

use crate::config::HeaderMangleConfig;
use crate::context::Context;
use crate::error::Error;
use crate::packet::{Packet, spec_is_http_request};
use crate::strategy::StrategyAction;
use crate::types::{Direction, Protocol};
use crate::util::{spec_find_seq, find_seq_from, lemma_find_seq_some, lemma_find_seq_none};
use vstd::prelude::*;
use vstd::string::*;

verus! {

/// The header-mangle strategy.
#[derive(Debug)]
pub struct HeaderMangleStrategy {
    /// Replace "Host:" with "hoSt:".
    pub host_replace: bool,
    /// Remove the space after "Host:"; accepted and ignored.
    pub host_remove_space: bool,
    /// Alternate the case of the Host header value.
    pub host_mix_case: bool,
    /// Add a space after the request method; accepted and ignored.
    pub additional_space: bool,
}

/// The bytes of `"\r\nHost:"`, without the trailing space.
pub open spec fn spec_host_colon() -> Seq<u8> {
    seq![13u8, 10u8, 72u8, 111u8, 115u8, 116u8, 58u8]
}

/// A payload with the first `"\r\nHost:"` turned into `"\r\nhoSt:"`:
/// the `H` lowered and the `s` raised.
pub open spec fn spec_replace_host(p: Seq<u8>) -> (Seq<u8>, bool) {
    match spec_find_seq(p, spec_host_colon(), 0) {
        Option::Some(i) => (p.update(i + 2, 104u8).update(i + 4, 83u8), true),
        Option::None => (p, false),
    }
}

/// The span of the Host header value: the position of the first
/// `"\r\nHost: "` marker and of the line break that ends the value.
pub open spec fn spec_host_header_span(p: Seq<u8>) -> Option<(int, int)> {
    match spec_find_seq(p, crate::packet::spec_host_marker(), 0) {
        Option::None => None,
        Option::Some(i) => match spec_find_seq(p, crate::packet::spec_crlf(), i + 8) {
            Option::None => None,
            Option::Some(j) => Some((i, j)),
        },
    }
}

/// Whether the byte is an ASCII letter.
pub open spec fn spec_is_letter(b: u8) -> bool {
    (97 <= b <= 122) || (65 <= b <= 90)
}

/// How many letters lie in `[start, k)`.
pub open spec fn spec_letters_before(p: Seq<u8>, start: int, k: int) -> int
    decreases k - start,
{
    if k <= start {
        0
    } else {
        spec_letters_before(p, start, k - 1) + (if spec_is_letter(p[k - 1]) {
            1int
        } else {
            0int
        })
    }
}

/// Bytes in `[start, end)` with every second letter raised to upper
/// case: of the letters in the range, those at odd letter positions.
pub open spec fn spec_mix_case_range(p: Seq<u8>, start: int, end: int) -> Seq<u8> {
    Seq::new(
        p.len(),
        |k: int|
            if start <= k < end && 97 <= p[k] <= 122 && spec_letters_before(p, start, k) % 2
                == 1 {
                (p[k] - 32) as u8
            } else {
                p[k]
            },
    )
}

/// What `apply` makes of a payload: the Host token replacement, then
/// the mixed-case value, with a flag saying whether anything changed.
pub open spec fn spec_mangle(s: HeaderMangleStrategy, p: Seq<u8>) -> (Seq<u8>, bool) {
    let (p1, m1) = if s.host_replace {
        spec_replace_host(p)
    } else {
        (p, false)
    };
    let (p2, m2) = if s.host_mix_case {
        match spec_host_header_span(p1) {
            Option::Some((i, j)) => {
                if i + 8 < j {
                    (spec_mix_case_range(p1, i + 8, j), true)
                } else {
                    (p1, false)
                }
            },
            Option::None => (p1, false),
        }
    } else {
        (p1, false)
    };
    (p2, m1 || m2)
}

impl HeaderMangleStrategy {
    /// A new strategy with the Host token replacement on.
    pub fn new() -> (r: HeaderMangleStrategy)
        ensures
            r.host_replace,
            r.host_remove_space,
            !r.host_mix_case,
            !r.additional_space,
    {
        HeaderMangleStrategy {
            host_replace: true,
            host_remove_space: true,
            host_mix_case: false,
            additional_space: false,
        }
    }

    /// A strategy with the configured mutations.
    pub fn from_config(config: &HeaderMangleConfig) -> (r: HeaderMangleStrategy)
        ensures
            r.host_replace == config.host_replace,
            r.host_remove_space == config.host_remove_space,
            r.host_mix_case == config.host_mix_case,
            r.additional_space == config.additional_space,
    {
        HeaderMangleStrategy {
            host_replace: config.host_replace,
            host_remove_space: config.host_remove_space,
            host_mix_case: config.host_mix_case,
            additional_space: config.additional_space,
        }
    }

    /// The span of the Host header in a payload: where the
    /// `"\r\nHost: "` marker starts and where the value's line break
    /// begins.
    pub fn find_host_header(&self, payload: &[u8]) -> (r: Option<(usize, usize)>)
        ensures
            match r {
                Some(span) => spec_host_header_span(payload@) == Some(
                    (span.0 as int, span.1 as int),
                ),
                None => spec_host_header_span(payload@) is None,
            },
    {
        let marker: Vec<u8> = vec![13u8, 10u8, 72u8, 111u8, 115u8, 116u8, 58u8, 32u8];
        let crlf: Vec<u8> = vec![13u8, 10u8];
        proof {
            assert(marker@ =~= crate::packet::spec_host_marker());
            assert(crlf@ =~= crate::packet::spec_crlf());
        }
        let i = match find_seq_from(payload, marker.as_slice(), 0) {
            Some(i) => i,
            None => {
                proof {
                    lemma_find_seq_none(payload@, crate::packet::spec_host_marker(), 0);
                }
                return None;
            },
        };
        proof {
            lemma_find_seq_some(payload@, crate::packet::spec_host_marker(), 0, i as int);
        }
        let n = payload.len();
        let value_start = i + 8;
        let j = match find_seq_from(payload, crlf.as_slice(), value_start) {
            Some(j) => j,
            None => {
                proof {
                    lemma_find_seq_none(payload@, crate::packet::spec_crlf(), value_start as int);
                }
                return None;
            },
        };
        proof {
            lemma_find_seq_some(payload@, crate::packet::spec_crlf(), value_start as int, j as int);
        }
        Some((i, j))
    }

    /// Turn the first `"\r\nHost:"` of a payload into `"\r\nhoSt:"`;
    /// report whether one was found.
    pub fn replace_host_header(&self, payload: &mut Vec<u8>) -> (r: bool)
        ensures
            final(payload)@ == spec_replace_host(old(payload)@).0,
            r == spec_replace_host(old(payload)@).1,
    {
        let marker: Vec<u8> = vec![13u8, 10u8, 72u8, 111u8, 115u8, 116u8, 58u8];
        proof {
            assert(marker@ =~= spec_host_colon());
        }
        let n = payload.len();
        match find_seq_from(payload.as_slice(), marker.as_slice(), 0) {
            Some(i) => {
                proof {
                    lemma_find_seq_some(payload@, spec_host_colon(), 0, i as int);
                }
                assert(i + 7 <= n);
                payload.set(i + 2, 104);
                payload.set(i + 4, 83);
                true
            },
            None => {
                proof {
                    lemma_find_seq_none(payload@, spec_host_colon(), 0);
                }
                false
            },
        }
    }

    /// Raise every lower-case letter at an odd index to upper case.
    pub fn mix_case_hostname(&self, hostname: &mut Vec<u8>)
        ensures
            final(hostname)@ == spec_mix_case_range(old(hostname)@, 0, old(hostname)@.len() as int),
    {
        let n = hostname.len();
        mix_case_range(hostname, 0, n);
    }

    /// The position right after a recognised request method, when the
    /// payload starts with one.
    pub fn find_method_end(&self, payload: &[u8]) -> (r: Option<usize>)
        ensures
            r == spec_find_method_end(payload@),
    {
        let get_: Vec<u8> = vec![71u8, 69u8, 84u8, 32u8];
        let post_: Vec<u8> = vec![80u8, 79u8, 83u8, 84u8, 32u8];
        let head_: Vec<u8> = vec![72u8, 69u8, 65u8, 68u8, 32u8];
        let put_: Vec<u8> = vec![80u8, 85u8, 84u8, 32u8];
        let delete_: Vec<u8> = vec![68u8, 69u8, 76u8, 69u8, 84u8, 69u8, 32u8];
        let connect_: Vec<u8> = vec![67u8, 79u8, 78u8, 78u8, 69u8, 67u8, 84u8, 32u8];
        let options_: Vec<u8> = vec![79u8, 80u8, 84u8, 73u8, 79u8, 78u8, 83u8, 32u8];
        proof {
            assert(get_@ =~= spec_method_get());
            assert(post_@ =~= spec_method_post());
            assert(head_@ =~= spec_method_head());
            assert(put_@ =~= spec_method_put());
            assert(delete_@ =~= spec_method_delete());
            assert(connect_@ =~= spec_method_connect());
            assert(options_@ =~= spec_method_options());
        }
        if starts_with(payload, get_.as_slice()) {
            Some(3)
        } else if starts_with(payload, post_.as_slice()) {
            Some(4)
        } else if starts_with(payload, head_.as_slice()) {
            Some(4)
        } else if starts_with(payload, put_.as_slice()) {
            Some(3)
        } else if starts_with(payload, delete_.as_slice()) {
            Some(6)
        } else if starts_with(payload, connect_.as_slice()) {
            Some(7)
        } else if starts_with(payload, options_.as_slice()) {
            Some(7)
        } else {
            None
        }
    }

    /// Whether the strategy takes the packet: an outbound HTTP request
    /// to port 80.
    pub open spec fn spec_should_apply(self, p: Packet, ctx: Context) -> bool {
        &&& p.direction == Direction::Outbound
        &&& p.protocol == Protocol::Tcp
        &&& p.dst_port == 80
        &&& spec_is_http_request(p.spec_payload())
    }

    /// Whether the strategy takes the packet.
    pub fn should_apply(&self, packet: &Packet, ctx: &Context) -> (r: bool)
        requires
            packet.wf(),
        ensures
            r == self.spec_should_apply(*packet, *ctx),
    {
        packet.is_outbound() && packet.is_tcp() && packet.dst_port == 80
            && packet.is_http_request()
    }

    /// What `apply` does: the packet passes on with its payload equal
    /// to the configured mangling of the original and everything else
    /// preserved; the modified-headers counter moves exactly when the
    /// mangling changed something.
    pub open spec fn spec_apply_post(
        self,
        packet: Packet,
        c0: Context,
        c1: Context,
        a: StrategyAction,
    ) -> bool {
        &&& crate::strategy::spec_action_wf(a)
        &&& (a matches StrategyAction::Pass(p) && {
            &&& Packet::spec_same_meta(packet, p)
            &&& p.ttl == packet.ttl
            &&& p.spec_payload() == spec_mangle(self, packet.spec_payload()).0
            &&& p.spec_tcp_seq() == packet.spec_tcp_seq()
            &&& p.spec_tcp_ack() == packet.spec_tcp_ack()
        })
        &&& c1.stats == (crate::context::Stats {
            headers_modified: if spec_mangle(self, packet.spec_payload()).1 {
                crate::context::spec_bump(c0.stats.headers_modified)
            } else {
                c0.stats.headers_modified
            },
            ..c0.stats
        })
        &&& c1.tcp_tracker == c0.tcp_tracker
        &&& c1.dns_tracker == c0.dns_tracker
        &&& c1.domain_filter == c0.domain_filter
        &&& c1.now_ms == c0.now_ms
        &&& c1.blacklist_enabled == c0.blacklist_enabled
        &&& c1.blacklist == c0.blacklist
    }

    /// Apply the configured length-preserving mutations in place and
    /// pass the packet on.
    pub fn apply(&self, packet: Packet, ctx: &mut Context) -> (r: Result<StrategyAction, Error>)
        requires
            packet.wf(),
            old(ctx).wf(),
        ensures
            final(ctx).wf(),
            r is Ok,
            r matches Ok(a) ==> self.spec_apply_post(packet, *old(ctx), *final(ctx), a),
    {
        let mut packet = packet;
        let mut modified = false;
        if self.host_replace {
            let mut payload: Vec<u8> = vstd::slice::slice_to_vec(packet.payload());
            let replaced = self.replace_host_header(&mut payload);
            if replaced {
                proof {
                    assert(spec_find_seq(packet.spec_payload(), spec_host_colon(), 0) is Some);
                    crate::util::lemma_find_seq_bounds(
                        packet.spec_payload(),
                        spec_host_colon(),
                        0,
                    );
                    assert(payload@.len() == packet.spec_payload().len());
                }
                write_payload(&mut packet, &payload);
                modified = true;
            }
            proof {
                if !replaced {
                    assert(packet.spec_payload() == spec_replace_host(packet.spec_payload()).0);
                }
            }
        }
        if self.host_mix_case {
            let payload: Vec<u8> = vstd::slice::slice_to_vec(packet.payload());
            let pn = payload.len();
            match self.find_host_header(payload.as_slice()) {
                Some((header_start, header_end)) => {
                    proof {
                        crate::util::lemma_find_seq_bounds(
                            payload@,
                            crate::packet::spec_host_marker(),
                            0,
                        );
                        crate::util::lemma_find_seq_bounds(
                            payload@,
                            crate::packet::spec_crlf(),
                            header_start + 8,
                        );
                    }
                    assert(header_start + 8 <= pn && header_end + 2 <= pn);
                    let value_start = header_start + 8;
                    if value_start < header_end {
                        let mut mixed = payload;
                        mix_case_range(&mut mixed, value_start, header_end);
                        write_payload(&mut packet, &mixed);
                        modified = true;
                    }
                },
                None => {
                },
            }
        }
        if modified {
            if ctx.stats.headers_modified < u64::MAX {
                ctx.stats.headers_modified = ctx.stats.headers_modified + 1;
            }
        }
        Ok(StrategyAction::Pass(packet))
    }
}

/// Whether the payload begins with the given prefix.
fn starts_with(payload: &[u8], prefix: &[u8]) -> (r: bool)
    ensures
        r == (payload@.len() >= prefix@.len() && payload@.take(prefix@.len() as int)
            =~= prefix@),
{
    if payload.len() < prefix.len() {
        return false;
    }
    let r = crate::util::match_at(payload, prefix, 0);
    proof {
        assert(payload@.subrange(0, prefix@.len() as int) =~= payload@.take(
            prefix@.len() as int,
        ));
    }
    r
}

/// The bytes of "GET ".
pub open spec fn spec_method_get() -> Seq<u8> {
    seq![71u8, 69u8, 84u8, 32u8]
}

/// The bytes of "POST ".
pub open spec fn spec_method_post() -> Seq<u8> {
    seq![80u8, 79u8, 83u8, 84u8, 32u8]
}

/// The bytes of "HEAD ".
pub open spec fn spec_method_head() -> Seq<u8> {
    seq![72u8, 69u8, 65u8, 68u8, 32u8]
}

/// The bytes of "PUT ".
pub open spec fn spec_method_put() -> Seq<u8> {
    seq![80u8, 85u8, 84u8, 32u8]
}

/// The bytes of "DELETE ".
pub open spec fn spec_method_delete() -> Seq<u8> {
    seq![68u8, 69u8, 76u8, 69u8, 84u8, 69u8, 32u8]
}

/// The bytes of "CONNECT ".
pub open spec fn spec_method_connect() -> Seq<u8> {
    seq![67u8, 79u8, 78u8, 78u8, 69u8, 67u8, 84u8, 32u8]
}

/// The bytes of "OPTIONS ".
pub open spec fn spec_method_options() -> Seq<u8> {
    seq![79u8, 80u8, 84u8, 73u8, 79u8, 78u8, 83u8, 32u8]
}

/// The method-end position: the index of the space after a recognised
/// request method at the start of the payload.
pub open spec fn spec_find_method_end(p: Seq<u8>) -> Option<usize> {
    if p.len() >= 4 && p.take(4) =~= spec_method_get() {
        Some(3usize)
    } else if p.len() >= 5 && p.take(5) =~= spec_method_post() {
        Some(4usize)
    } else if p.len() >= 5 && p.take(5) =~= spec_method_head() {
        Some(4usize)
    } else if p.len() >= 4 && p.take(4) =~= spec_method_put() {
        Some(3usize)
    } else if p.len() >= 7 && p.take(7) =~= spec_method_delete() {
        Some(6usize)
    } else if p.len() >= 8 && p.take(8) =~= spec_method_connect() {
        Some(7usize)
    } else if p.len() >= 8 && p.take(8) =~= spec_method_options() {
        Some(7usize)
    } else {
        None
    }
}

/// Raise every second letter within `[start, end)` to upper case,
/// counting letters only.
#[verifier::loop_isolation(false)]
fn mix_case_range(data: &mut Vec<u8>, start: usize, end: usize)
    requires
        start <= end <= old(data)@.len(),
    ensures
        final(data)@ == spec_mix_case_range(old(data)@, start as int, end as int),
{
    let mut letters: u64 = 0;
    let mut k: usize = start;
    while k < end
        invariant
            start <= k <= end,
            data@.len() == old(data)@.len(),
            letters == spec_letters_before(old(data)@, start as int, k as int),
            forall|m: int|
                0 <= m < data@.len() ==> data@[m] == (if start <= m < k && 97 <= old(
                    data,
                )@[m] <= 122 && spec_letters_before(old(data)@, start as int, m) % 2 == 1 {
                    (old(data)@[m] - 32) as u8
                } else {
                    old(data)@[m]
                }),
        decreases end - k,
    {
        let b = data[k];
        proof {
            assert(data@[k as int] == old(data)@[k as int]);
            lemma_letters_bound(old(data)@, start as int, k as int);
        }
        if 97 <= b && b <= 122 {
            if letters % 2 == 1 {
                data.set(k, b - 32);
            }
            letters = letters + 1;
        } else if 65 <= b && b <= 90 {
            letters = letters + 1;
        }
        k = k + 1;
    }
    proof {
        assert(final(data)@ =~= spec_mix_case_range(old(data)@, start as int, end as int));
    }
}

/// The letter count over a range never exceeds its width.
proof fn lemma_letters_bound(p: Seq<u8>, start: int, k: int)
    requires
        start <= k,
    ensures
        0 <= spec_letters_before(p, start, k) <= k - start,
    decreases k - start,
{
    if k > start {
        lemma_letters_bound(p, start, k - 1);
    }
}

/// Overwrite the packet payload byte for byte with `bytes`, which must
/// have the payload's length.
fn write_payload(packet: &mut Packet, bytes: &Vec<u8>)
    requires
        old(packet).wf(),
        bytes@.len() == old(packet).spec_payload().len(),
    ensures
        final(packet).wf(),
        Packet::spec_same_meta(*old(packet), *final(packet)),
        final(packet).ttl == old(packet).ttl,
        final(packet).spec_payload() == bytes@,
        final(packet).spec_tcp_seq() == old(packet).spec_tcp_seq(),
        final(packet).spec_tcp_ack() == old(packet).spec_tcp_ack(),
{
    let n = bytes.len();
    let mut k: usize = 0;
    while k < n
        invariant
            n == bytes@.len(),
            k <= n,
            packet.wf(),
            n == packet.spec_payload().len(),
            Packet::spec_same_meta(*old(packet), *packet),
            packet.ttl == old(packet).ttl,
            packet.spec_tcp_seq() == old(packet).spec_tcp_seq(),
            packet.spec_tcp_ack() == old(packet).spec_tcp_ack(),
            forall|m: int|
                0 <= m < n ==> packet.spec_payload()[m] == (if m < k {
                    bytes@[m]
                } else {
                    old(packet).spec_payload()[m]
                }),
        decreases n - k,
    {
        packet.set_payload_byte(k, bytes[k]);
        k = k + 1;
    }
    proof {
        assert(final(packet).spec_payload() =~= bytes@);
    }
}

} // verus!

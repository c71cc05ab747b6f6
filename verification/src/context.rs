//! The per-run execution context: statistics counters, the domain
//! filter, the two connection-tracking tables, and the engine clock.

use crate::addr::IpAddress;
use crate::conntrack::{
    ConnKey, DnsConnTracker, TcpConnTracker, spec_dns_lookup, spec_find_dns, spec_hop_lookup,
    DnsQueryEntry,
};
use crate::filter::{
    DomainFilter, FilterMode, FilterResult, spec_filter_check, spec_has,
};
use crate::packet::Packet;
use crate::util::{bytes_eq, lower_bytes, spec_lower_bytes, find_seq_from, spec_match_at};
use vstd::prelude::*;
use vstd::string::*;

verus! {

/// Monotonic counters over one engine run.
#[derive(Debug, Clone, Copy, PartialEq, Eq, Structural)]
pub struct Stats {
    /// Packets processed.
    pub packets_processed: u64,
    /// Packets fragmented.
    pub packets_fragmented: u64,
    /// Decoy packets sent.
    pub fake_packets_sent: u64,
    /// Headers modified.
    pub headers_modified: u64,
    /// QUIC packets blocked.
    pub quic_blocked: u64,
    /// DNS queries redirected.
    pub dns_redirected: u64,
    /// Packets dropped.
    pub packets_dropped: u64,
    /// Hostnames skipped by the domain filter.
    pub domains_filtered: u64,
}

impl Stats {
    /// All counters at zero.
    pub fn new() -> (r: Stats)
        ensures
            r == spec_zero_stats(),
    {
        Stats {
            packets_processed: 0,
            packets_fragmented: 0,
            fake_packets_sent: 0,
            headers_modified: 0,
            quic_blocked: 0,
            dns_redirected: 0,
            packets_dropped: 0,
            domains_filtered: 0,
        }
    }
}

/// The all-zero statistics value.
pub open spec fn spec_zero_stats() -> Stats {
    Stats {
        packets_processed: 0,
        packets_fragmented: 0,
        fake_packets_sent: 0,
        headers_modified: 0,
        quic_blocked: 0,
        dns_redirected: 0,
        packets_dropped: 0,
        domains_filtered: 0,
    }
}

impl Default for Stats {
    /// All counters at zero.
    fn default() -> (r: Stats)
        ensures
            r == spec_zero_stats(),
    {
        Stats::new()
    }
}

/// A counter incremented by one, saturating at the maximum.
pub open spec fn spec_bump(x: u64) -> u64 {
    if x < u64::MAX {
        (x + 1) as u64
    } else {
        x
    }
}

/// Whether a lower-cased hostname is covered by the legacy blacklist:
/// an entry equals it, or equals a suffix that starts after a dot.
pub open spec fn spec_blacklist_covers(bl: Seq<Vec<u8>>, h: Seq<u8>) -> bool {
    ||| spec_has(bl, h)
    ||| exists|i: int| 0 <= i < h.len() && h[i] == 46 && spec_has(bl, h.skip(i + 1))
}

/// Execution context shared by the strategies during a pipeline run.
#[derive(Debug)]
pub struct Context {
    /// Processing statistics.
    pub stats: Stats,
    /// Domain filter, whitelist or blacklist.
    pub domain_filter: DomainFilter,
    /// TCP hop table feeding the auto-TTL computation.
    pub tcp_tracker: TcpConnTracker,
    /// DNS query table feeding the response rewrite.
    pub dns_tracker: DnsConnTracker,
    /// Allow connections without an SNI when filtering.
    pub allow_no_sni: bool,
    /// Whether hostname filtering is on at all.
    pub blacklist_enabled: bool,
    /// Legacy blacklist entries, lower-cased; an entry covers itself
    /// and every subdomain.
    pub blacklist: Vec<Vec<u8>>,
    /// The engine clock in milliseconds, advanced by the caller.
    pub now_ms: u64,
}

impl Context {
    /// Both tracking tables are well formed.
    pub open spec fn wf(self) -> bool {
        &&& self.tcp_tracker.wf()
        &&& self.dns_tracker.wf()
    }

    /// A fresh context: no filtering, empty tables, zero counters.
    pub fn new() -> (r: Context)
        ensures
            r.wf(),
            r.stats == spec_zero_stats(),
            !r.blacklist_enabled,
            r.domain_filter.mode == FilterMode::Disabled,
            r.tcp_tracker.entries@.len() == 0,
            r.dns_tracker.entries@.len() == 0,
            r.tcp_tracker.timeout_ms == 60000,
            r.dns_tracker.timeout_ms == 5000,
            r.now_ms == 0,
    {
        Context {
            stats: Stats::new(),
            domain_filter: DomainFilter::new(),
            tcp_tracker: TcpConnTracker::new(),
            dns_tracker: DnsConnTracker::new(),
            allow_no_sni: false,
            blacklist_enabled: false,
            blacklist: Vec::new(),
            now_ms: 0,
        }
    }

    /// A context with a legacy blacklist: only the listed domains and
    /// their subdomains are transformed.  The entry list holds exactly
    /// the given domains, lower-cased and with any "*." marker dropped.
    #[verifier::loop_isolation(false)]
    pub fn with_blacklist(domains: Vec<String>) -> (r: Context)
        ensures
            r.wf(),
            r.stats == spec_zero_stats(),
            r.blacklist_enabled,
            r.domain_filter.mode == FilterMode::Disabled,
            r.tcp_tracker.entries@.len() == 0,
            r.dns_tracker.entries@.len() == 0,
            r.tcp_tracker.timeout_ms == 60000,
            r.dns_tracker.timeout_ms == 5000,
            r.blacklist@.len() == domains@.len(),
            forall|k: int|
                0 <= k < domains@.len() ==> (#[trigger] r.blacklist@[k])@
                    == spec_strip_wildcard(
                    spec_lower_bytes(vstd::utf8::encode_utf8(domains@[k]@)),
                ),
    {
        let mut blacklist: Vec<Vec<u8>> = Vec::new();
        let n = domains.len();
        let mut i: usize = 0;
        while i < n
            invariant
                i <= n,
                blacklist@.len() == i,
                forall|k: int|
                    0 <= k < i ==> (#[trigger] blacklist@[k])@ == spec_strip_wildcard(
                        spec_lower_bytes(vstd::utf8::encode_utf8(domains@[k]@)),
                    ),
            decreases n - i,
        {
            let entry_str = domains[i].as_str();
            let lowered = lower_bytes(entry_str.as_bytes());
            proof {
                assert(entry_str.spec_bytes() == vstd::utf8::encode_utf8(domains@[i as int]@));
            }
            let entry = strip_wildcard_marker(lowered);
            blacklist.push(entry);
            i = i + 1;
        }
        Context {
            stats: Stats::new(),
            domain_filter: DomainFilter::new(),
            tcp_tracker: TcpConnTracker::new(),
            dns_tracker: DnsConnTracker::new(),
            allow_no_sni: false,
            blacklist_enabled: true,
            blacklist,
            now_ms: 0,
        }
    }

    /// A context with a domain filter; filtering is on when the filter
    /// has a mode.
    pub fn with_filter(filter: DomainFilter) -> (r: Context)
        ensures
            r.wf(),
            r.stats == spec_zero_stats(),
            r.domain_filter == filter,
            r.blacklist_enabled == (filter.mode != FilterMode::Disabled),
            r.tcp_tracker.entries@.len() == 0,
            r.dns_tracker.entries@.len() == 0,
            r.tcp_tracker.timeout_ms == 60000,
            r.dns_tracker.timeout_ms == 5000,
    {
        let enabled = match filter.mode() {
            FilterMode::Disabled => false,
            _ => true,
        };
        Context {
            stats: Stats::new(),
            domain_filter: filter,
            tcp_tracker: TcpConnTracker::new(),
            dns_tracker: DnsConnTracker::new(),
            allow_no_sni: false,
            blacklist_enabled: enabled,
            blacklist: Vec::new(),
            now_ms: 0,
        }
    }

    /// The domain filter.
    pub fn filter(&self) -> (r: &DomainFilter)
        ensures
            r == &self.domain_filter,
    {
        &self.domain_filter
    }

    /// Advance the engine clock.
    pub fn set_now(&mut self, now_ms: u64)
        ensures
            *final(self) == (Context { now_ms, ..*old(self) }),
    {
        self.now_ms = now_ms;
    }

    /// Whether the legacy blacklist covers a hostname: the entry list
    /// contains it or any of its parent domains.
    ///
    /// With filtering off everything counts as covered, so all traffic
    /// is processed.
    #[verifier::loop_isolation(false)]
    pub fn is_blacklisted(&self, hostname: &str) -> (r: bool)
        ensures
            r == (!self.blacklist_enabled || spec_blacklist_covers(
                self.blacklist@,
                spec_lower_bytes(hostname.spec_bytes()),
            )),
    {
        if !self.blacklist_enabled {
            return true;
        }
        let hl = lower_bytes(hostname.as_bytes());
        let ghost h = spec_lower_bytes(hostname.spec_bytes());
        if vec_set_contains(&self.blacklist, hl.as_slice()) {
            return true;
        }
        let n = hl.len();
        let dot: Vec<u8> = vec![46u8];
        let mut cur: usize = 0;
        loop
            invariant
                cur <= n,
                forall|i: int| 0 <= i < cur && h[i] == 46 ==> !spec_has(
                    self.blacklist@,
                    #[trigger] h.skip(i + 1),
                ),
            decreases n - cur,
        {
            let found = find_seq_from(hl.as_slice(), dot.as_slice(), cur);
            match found {
                Some(i) => {
                    proof {
                        assert(dot@ =~= seq![46u8]);
                        assert(h[i as int] == 46) by {
                            assert(h.subrange(i as int, i + 1) =~= seq![46u8]);
                        }
                        assert forall|j: int| cur <= j < i && h[j] == 46 implies false by {
                            assert(h.subrange(j, j + 1) =~= seq![46u8]);
                            assert(spec_match_at(h, dot@, j));
                        }
                    }
                    let suffix = vstd::slice::slice_subrange(hl.as_slice(), i + 1, n);
                    proof {
                        assert(suffix@ =~= h.skip(i + 1));
                    }
                    if vec_set_contains(&self.blacklist, suffix) {
                        return true;
                    }
                    cur = i + 1;
                },
                None => {
                    proof {
                        assert forall|i: int| 0 <= i < h.len() && h[i] == 46 implies !spec_has(
                            self.blacklist@,
                            #[trigger] h.skip(i + 1),
                        ) by {
                            if i >= cur {
                                assert(h.subrange(i, i + 1) =~= seq![46u8]);
                                assert(spec_match_at(h, dot@, i));
                            }
                        }
                    }
                    return false;
                },
            }
        }
    }

    /// Add a domain to the legacy blacklist; a leading "*." marker is
    /// dropped, as every entry already covers its subdomains.
    pub fn add_to_blacklist(&mut self, domain: &str)
        ensures
            final(self).wf() == old(self).wf(),
            spec_has(
                final(self).blacklist@,
                spec_strip_wildcard(spec_lower_bytes(domain.spec_bytes())),
            ),
    {
        let lowered = lower_bytes(domain.as_bytes());
        let entry = strip_wildcard_marker(lowered);
        let ghost before = self.blacklist@;
        self.blacklist.push(entry);
        proof {
            assert(self.blacklist@[before.len() as int]@ == spec_strip_wildcard(
                spec_lower_bytes(domain.spec_bytes()),
            ));
        }
    }

    /// Whether the bypass should run for a hostname: the filter
    /// decides when it has a mode, the legacy blacklist otherwise.
    pub fn should_apply_bypass(&self, hostname: &str) -> (r: bool)
        ensures
            r == spec_should_apply_bypass(*self, spec_lower_bytes(hostname.spec_bytes())),
    {
        match self.domain_filter.mode() {
            FilterMode::Disabled => self.is_blacklisted(hostname),
            _ => {
                match self.domain_filter.check(hostname) {
                    FilterResult::ApplyBypass => true,
                    FilterResult::SkipBypass => false,
                }
            },
        }
    }

    /// The recorded TTL for the connection an outbound packet belongs
    /// to, looked up at the engine clock.
    pub fn get_connection_ttl(&mut self, packet: &Packet) -> (r: Option<u8>)
        requires
            old(self).wf(),
        ensures
            final(self).wf(),
            r == spec_hop_lookup(
                old(self).tcp_tracker.entries@,
                (ConnKey {
                    server_ip: packet.dst_addr,
                    server_port: packet.dst_port,
                    client_ip: packet.src_addr,
                    client_port: packet.src_port,
                }),
                old(self).now_ms,
                old(self).tcp_tracker.timeout_ms,
            ),
            Self::spec_same_except_tcp(*old(self), *final(self)),
    {
        self.tcp_tracker.get_ttl(
            packet.dst_addr,
            packet.dst_port,
            packet.src_addr,
            packet.src_port,
            self.now_ms,
        )
    }

    /// Record an inbound SYN-ACK's TTL, keyed by the packet's source
    /// (the server) and destination (the client).  Other packets leave
    /// the table unchanged.
    pub fn record_connection_ttl(&mut self, packet: &Packet)
        requires
            old(self).wf(),
        ensures
            final(self).wf(),
            Self::spec_same_except_tcp(*old(self), *final(self)),
            (packet.tcp_flags matches Some(f) && f.syn && f.ack)
                ==> crate::conntrack::spec_find_hop(
                final(self).tcp_tracker.entries@,
                (ConnKey {
                    server_ip: packet.src_addr,
                    server_port: packet.src_port,
                    client_ip: packet.dst_addr,
                    client_port: packet.dst_port,
                }),
            ) == Some(
                (crate::conntrack::TcpHopEntry {
                    key: ConnKey {
                        server_ip: packet.src_addr,
                        server_port: packet.src_port,
                        client_ip: packet.dst_addr,
                        client_port: packet.dst_port,
                    },
                    ttl: packet.ttl,
                    created_ms: old(self).now_ms,
                }),
            ),
            !(packet.tcp_flags matches Some(f) && f.syn && f.ack) ==> *final(self) == *old(
                self,
            ),
    {
        let syn_ack = match packet.tcp_flags {
            Some(f) => f.syn && f.ack,
            None => false,
        };
        if syn_ack {
            self.tcp_tracker.record(
                packet.src_addr,
                packet.src_port,
                packet.dst_addr,
                packet.dst_port,
                packet.ttl,
                self.now_ms,
            );
        }
    }

    /// Track a redirected DNS query's original destination.
    pub fn dns_track_query(&mut self, src_port: u16, original_dst: IpAddress, original_port: u16)
        requires
            old(self).wf(),
        ensures
            final(self).wf(),
            Self::spec_same_except_dns(*old(self), *final(self)),
            spec_find_dns(final(self).dns_tracker.entries@, src_port) == Some(
                (DnsQueryEntry {
                    src_port,
                    dst_ip: original_dst,
                    dst_port: original_port,
                    created_ms: old(self).now_ms,
                }),
            ),
            crate::conntrack::spec_count_dns(final(self).dns_tracker.entries@, src_port) == 1,
    {
        self.dns_tracker.track_query(src_port, original_dst, original_port, self.now_ms);
    }

    /// Look up the original destination of a redirected query.
    pub fn dns_get_original(&mut self, src_port: u16) -> (r: Option<(IpAddress, u16)>)
        requires
            old(self).wf(),
        ensures
            final(self).wf(),
            Self::spec_same_except_dns(*old(self), *final(self)),
            r == spec_dns_lookup(
                old(self).dns_tracker.entries@,
                src_port,
                old(self).now_ms,
                old(self).dns_tracker.timeout_ms,
            ),
    {
        self.dns_tracker.get_original(src_port, self.now_ms)
    }

    /// Drop a tracked query once its response has been rewritten.
    pub fn dns_drop(&mut self, src_port: u16)
        requires
            old(self).wf(),
        ensures
            final(self).wf(),
            Self::spec_same_except_dns(*old(self), *final(self)),
            spec_find_dns(final(self).dns_tracker.entries@, src_port) is None,
    {
        self.dns_tracker.remove(src_port);
    }

    /// A snapshot of the statistics.
    pub fn get_stats(&self) -> (r: Stats)
        ensures
            r == self.stats,
    {
        self.stats.clone()
    }

    /// Reset the statistics to zero.
    pub fn reset_stats(&mut self)
        ensures
            *final(self) == (Context { stats: spec_zero_stats(), ..*old(self) }),
    {
        self.stats = Stats::new();
    }

    /// Context equality up to the TCP hop table and its timeout.
    pub open spec fn spec_same_except_tcp(a: Context, b: Context) -> bool {
        &&& a.stats == b.stats
        &&& a.domain_filter == b.domain_filter
        &&& a.dns_tracker == b.dns_tracker
        &&& a.allow_no_sni == b.allow_no_sni
        &&& a.blacklist_enabled == b.blacklist_enabled
        &&& a.blacklist == b.blacklist
        &&& a.now_ms == b.now_ms
        &&& a.tcp_tracker.timeout_ms == b.tcp_tracker.timeout_ms
    }

    /// Context equality up to the DNS query table and its timeout.
    pub open spec fn spec_same_except_dns(a: Context, b: Context) -> bool {
        &&& a.stats == b.stats
        &&& a.domain_filter == b.domain_filter
        &&& a.tcp_tracker == b.tcp_tracker
        &&& a.allow_no_sni == b.allow_no_sni
        &&& a.blacklist_enabled == b.blacklist_enabled
        &&& a.blacklist == b.blacklist
        &&& a.now_ms == b.now_ms
        &&& a.dns_tracker.timeout_ms == b.dns_tracker.timeout_ms
    }
}

/// What `should_apply_bypass` decides for a lower-cased hostname.
pub open spec fn spec_should_apply_bypass(c: Context, h: Seq<u8>) -> bool {
    if c.domain_filter.mode == FilterMode::Disabled {
        !c.blacklist_enabled || spec_blacklist_covers(c.blacklist@, h)
    } else {
        spec_filter_check(c.domain_filter, h) == FilterResult::ApplyBypass
    }
}

/// The hostname a packet names, if any: the Host header of an HTTP
/// request, or the SNI of a TLS ClientHello.
pub open spec fn spec_hostname_of(p: Packet) -> Option<Seq<u8>> {
    if crate::packet::spec_is_http_request(p.spec_payload()) {
        crate::packet::spec_extract_http_host(p.spec_payload())
    } else if crate::packet::spec_is_tls_client_hello(p.spec_payload()) {
        crate::packet::spec_extract_sni(p.spec_payload())
    } else {
        None
    }
}

/// Whether the filter lets the bypass run on this packet: with
/// filtering off, or without a hostname, always; otherwise as the
/// filter or legacy blacklist decides on the packet's hostname.
pub open spec fn spec_bypass_ok(ctx: Context, p: Packet) -> bool {
    ctx.blacklist_enabled ==> match spec_hostname_of(p) {
        Option::Some(h) => spec_should_apply_bypass(ctx, spec_lower_bytes(h)),
        Option::None => true,
    }
}

/// Every SNI hostname the scanner returns is ASCII.
proof fn lemma_sni_scan_ascii(p: Seq<u8>, i: int)
    ensures
        crate::packet::spec_sni_scan(p, i) matches Some(b) ==> crate::util::spec_all_ascii(b),
    decreases p.len() - i,
{
    if i + 10 >= p.len() {
    } else if crate::packet::spec_sni_valid_at(p, i) {
        let b = crate::packet::spec_sni_name_at(p, i);
        assert forall|k: int| 0 <= k < b.len() implies b[k] < 128 by {
            assert(crate::packet::spec_hostname_byte(b[k]));
        }
    } else {
        lemma_sni_scan_ascii(p, i + 1);
    }
}

/// Whether the domain filter lets the bypass run on this packet.
pub fn bypass_ok(ctx: &Context, packet: &Packet) -> (r: bool)
    requires
        packet.wf(),
    ensures
        r == spec_bypass_ok(*ctx, *packet),
{
    if !ctx.blacklist_enabled {
        return true;
    }
    let hostname = if packet.is_http_request() {
        packet.extract_http_host()
    } else if packet.is_tls_client_hello() {
        packet.extract_sni()
    } else {
        None
    };
    match hostname {
        Some(h) => {
            let hs = h.as_str();
            proof {
                let b = spec_hostname_of(*packet)->0;
                if crate::packet::spec_is_http_request(packet.spec_payload()) {
                    assert(crate::util::spec_all_ascii(b));
                } else {
                    lemma_sni_scan_ascii(packet.spec_payload(), 0);
                }
                crate::util::lemma_ascii_chars_bytes(b);
                assert(hs.spec_bytes() =~= b);
            }
            let r = ctx.should_apply_bypass(hs);
            r
        },
        None => true,
    }
}

/// A blacklist entry without its leading "*." marker, when one is
/// there.
pub open spec fn spec_strip_wildcard(s: Seq<u8>) -> Seq<u8> {
    if s.len() >= 2 && s[0] == 42 && s[1] == 46 {
        s.skip(2)
    } else {
        s
    }
}

/// Drop a leading "*." marker.
fn strip_wildcard_marker(s: Vec<u8>) -> (r: Vec<u8>)
    ensures
        r@ == spec_strip_wildcard(s@),
{
    if s.len() >= 2 && s[0] == 42 && s[1] == 46 {
        let r = vstd::slice::slice_to_vec(
            vstd::slice::slice_subrange(s.as_slice(), 2, s.len()),
        );
        proof {
            assert(r@ =~= s@.skip(2));
        }
        r
    } else {
        s
    }
}

/// Whether some entry of `set` holds exactly the bytes `x`.
fn vec_set_contains(set: &Vec<Vec<u8>>, x: &[u8]) -> (r: bool)
    ensures
        r == spec_has(set@, x@),
{
    let n = set.len();
    let mut i: usize = 0;
    while i < n
        invariant
            n == set@.len(),
            i <= n,
            forall|j: int| 0 <= j < i ==> (#[trigger] set@[j])@ != x@,
        decreases n - i,
    {
        if bytes_eq(set[i].as_slice(), x) {
            return true;
        }
        i = i + 1;
    }
    false
}

} // verus!

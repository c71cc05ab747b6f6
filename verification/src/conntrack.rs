//! Connection tracking: the TCP hop table that remembers the TTL seen
//! on a SYN-ACK, and the DNS query table that remembers where a
//! redirected query was originally sent.
//!
//! Entries expire.  Time is a parameter: every operation takes the
//! caller's clock as a millisecond count, so expiry is part of the
//! verified logic and the caller owns the clock.

use crate::addr::IpAddress;
use vstd::prelude::*;

verus! {

/// Key of a tracked TCP connection: the server and client endpoints.
#[derive(Debug, Clone, Copy, PartialEq, Eq, Structural)]
pub struct ConnKey {
    /// Server (remote) address.
    pub server_ip: IpAddress,
    /// Server (remote) port.
    pub server_port: u16,
    /// Client (local) address.
    pub client_ip: IpAddress,
    /// Client (local) port.
    pub client_port: u16,
}

/// One tracked TCP connection: its key, the TTL seen on the SYN-ACK,
/// and when it was recorded.
#[derive(Debug, Clone, Copy, PartialEq, Eq, Structural)]
pub struct TcpHopEntry {
    /// Connection key.
    pub key: ConnKey,
    /// TTL from the SYN-ACK.
    pub ttl: u8,
    /// Clock reading at the time of recording, in milliseconds.
    pub created_ms: u64,
}

/// The first entry with the given key, scanning from the front.
pub open spec fn spec_find_hop(s: Seq<TcpHopEntry>, k: ConnKey) -> Option<TcpHopEntry>
    decreases s.len(),
{
    if s.len() == 0 {
        None
    } else if s[0].key == k {
        Some(s[0])
    } else {
        spec_find_hop(s.skip(1), k)
    }
}

/// How many entries carry the given key.
pub open spec fn spec_count_hop(s: Seq<TcpHopEntry>, k: ConnKey) -> int
    decreases s.len(),
{
    if s.len() == 0 {
        0
    } else {
        (if s[0].key == k {
            1int
        } else {
            0int
        }) + spec_count_hop(s.skip(1), k)
    }
}

/// What a lookup at clock `now` returns on table contents `s` with the
/// given timeout: the TTL of the entry, provided the elapsed time is
/// below the timeout.
pub open spec fn spec_hop_lookup(
    s: Seq<TcpHopEntry>,
    k: ConnKey,
    now: u64,
    timeout_ms: u64,
) -> Option<u8> {
    match spec_find_hop(s, k) {
        Option::None => None,
        Option::Some(e) => {
            if now >= e.created_ms && now - e.created_ms < timeout_ms {
                Some(e.ttl)
            } else {
                None
            }
        },
    }
}

/// Tracker of TCP connections for the auto-TTL feature.
///
/// When an inbound SYN-ACK is seen, the engine records its TTL keyed by
/// the connection's endpoints; an outbound packet on the same flow can
/// then look it up to estimate the path length.  Entries expire 60
/// seconds after recording unless another timeout is configured.
#[derive(Debug)]
pub struct TcpConnTracker {
    /// Tracked connections; keys are unique.
    pub entries: Vec<TcpHopEntry>,
    /// Entry timeout in milliseconds.
    pub timeout_ms: u64,
}

impl TcpConnTracker {
    /// Every key occurs at most once.
    pub open spec fn wf(self) -> bool {
        forall|i: int, j: int|
            0 <= i < j < self.entries@.len() ==> (#[trigger] self.entries@[i]).key != (
            #[trigger] self.entries@[j]).key
    }

    /// A new tracker with the default 60-second timeout.
    pub fn new() -> (r: TcpConnTracker)
        ensures
            r.wf(),
            r.entries@.len() == 0,
            r.timeout_ms == 60000,
    {
        TcpConnTracker { entries: Vec::new(), timeout_ms: 60000 }
    }

    /// A new tracker with the given timeout in milliseconds.
    pub fn with_timeout(timeout_ms: u64) -> (r: TcpConnTracker)
        ensures
            r.wf(),
            r.entries@.len() == 0,
            r.timeout_ms == timeout_ms,
    {
        TcpConnTracker { entries: Vec::new(), timeout_ms }
    }

    /// The index of the entry with the given key, if present.
    #[verifier::loop_isolation(false)]
    fn find_index(&self, key: ConnKey) -> (r: Option<usize>)
        ensures
            match r {
                Some(i) => i < self.entries@.len() && self.entries@[i as int].key == key
                    && spec_find_hop(self.entries@, key) == Some(self.entries@[i as int]),
                None => spec_find_hop(self.entries@, key) is None,
            },
    {
        let n = self.entries.len();
        proof {
            assert(self.entries@.skip(0) =~= self.entries@);
        }
        let mut i: usize = 0;
        while i < n
            invariant
                i <= n,
                spec_find_hop(self.entries@, key) == spec_find_hop(
                    self.entries@.skip(i as int),
                    key,
                ),
            decreases n - i,
        {
            let e = self.entries[i];
            proof {
                assert(self.entries@.skip(i as int)[0] == self.entries@[i as int]);
                assert(self.entries@.skip(i as int).skip(1) =~= self.entries@.skip(i + 1));
            }
            if e.key == key {
                return Some(i);
            }
            i = i + 1;
        }
        proof {
            assert(self.entries@.skip(n as int).len() == 0);
        }
        None
    }

    /// Record a connection's TTL from a SYN-ACK, replacing any previous
    /// entry with the same key.
    pub fn record(
        &mut self,
        server_ip: IpAddress,
        server_port: u16,
        client_ip: IpAddress,
        client_port: u16,
        ttl: u8,
        now_ms: u64,
    )
        requires
            old(self).wf(),
        ensures
            final(self).wf(),
            final(self).timeout_ms == old(self).timeout_ms,
            spec_find_hop(final(self).entries@, (ConnKey { server_ip, server_port, client_ip, client_port }))
                == Some(
                (TcpHopEntry {
                    key: ConnKey { server_ip, server_port, client_ip, client_port },
                    ttl,
                    created_ms: now_ms,
                }),
            ),
            forall|k: ConnKey|
                k != (ConnKey { server_ip, server_port, client_ip, client_port })
                    ==> #[trigger] spec_find_hop(final(self).entries@, k) == spec_find_hop(
                    old(self).entries@,
                    k,
                ),
    {
        let key = ConnKey { server_ip, server_port, client_ip, client_port };
        match self.find_index(key) {
            Some(i) => {
                let ghost before = self.entries@;
                self.entries.remove(i);
                proof {
                    lemma_remove_unique(before, i as int, key);
                }
            },
            None => {
            },
        }
        let ghost mid = self.entries@;
        self.entries.push(TcpHopEntry { key, ttl, created_ms: now_ms });
        proof {
            lemma_push_find(mid, (TcpHopEntry { key, ttl, created_ms: now_ms }));
        }
    }

    /// Look up the TTL recorded for a connection.  Returns the TTL when
    /// the entry is present and younger than the timeout; an expired
    /// entry is removed.
    pub fn get_ttl(
        &mut self,
        dst_ip: IpAddress,
        dst_port: u16,
        src_ip: IpAddress,
        src_port: u16,
        now_ms: u64,
    ) -> (r: Option<u8>)
        requires
            old(self).wf(),
        ensures
            final(self).wf(),
            final(self).timeout_ms == old(self).timeout_ms,
            r == spec_hop_lookup(
                old(self).entries@,
                (ConnKey {
                    server_ip: dst_ip,
                    server_port: dst_port,
                    client_ip: src_ip,
                    client_port: src_port,
                }),
                now_ms,
                old(self).timeout_ms,
            ),
            r is Some ==> *final(self) == *old(self),
            forall|k: ConnKey|
                k != (ConnKey {
                    server_ip: dst_ip,
                    server_port: dst_port,
                    client_ip: src_ip,
                    client_port: src_port,
                }) ==> #[trigger] spec_find_hop(final(self).entries@, k) == spec_find_hop(
                    old(self).entries@,
                    k,
                ),
    {
        let key = ConnKey {
            server_ip: dst_ip,
            server_port: dst_port,
            client_ip: src_ip,
            client_port: src_port,
        };
        match self.find_index(key) {
            Some(i) => {
                let e = self.entries[i];
                if now_ms >= e.created_ms && now_ms - e.created_ms < self.timeout_ms {
                    Some(e.ttl)
                } else {
                    let ghost before = self.entries@;
                    self.entries.remove(i);
                    proof {
                        lemma_remove_unique(before, i as int, key);
                    }
                    None
                }
            },
            None => None,
        }
    }

    /// Remove every entry older than the timeout.
    #[verifier::loop_isolation(false)]
    pub fn cleanup(&mut self, now_ms: u64)
        requires
            old(self).wf(),
        ensures
            final(self).wf(),
            final(self).timeout_ms == old(self).timeout_ms,
            forall|i: int|
                0 <= i < final(self).entries@.len() ==> {
                    let e = #[trigger] final(self).entries@[i];
                    now_ms >= e.created_ms ==> now_ms - e.created_ms < final(self).timeout_ms
                },
    {
        let n = self.entries.len();
        let mut kept: Vec<TcpHopEntry> = Vec::new();
        let mut i: usize = 0;
        while i < n
            invariant
                i <= n,
                *self == *old(self),
                forall|a: int, b: int|
                    0 <= a < b < kept@.len() ==> (#[trigger] kept@[a]).key != (
                    #[trigger] kept@[b]).key,
                forall|a: int|
                    0 <= a < kept@.len() ==> exists|b: int|
                        0 <= b < i && #[trigger] kept@[a] == self.entries@[b],
                forall|a: int|
                    0 <= a < kept@.len() ==> {
                        let e = #[trigger] kept@[a];
                        now_ms >= e.created_ms ==> now_ms - e.created_ms < self.timeout_ms
                    },
            decreases n - i,
        {
            let e = self.entries[i];
            if !(now_ms >= e.created_ms && now_ms - e.created_ms >= self.timeout_ms) {
                proof {
                    assert forall|a: int| 0 <= a < kept@.len() implies (#[trigger] kept@[a]).key
                        != e.key by {
                        let b = choose|b: int| 0 <= b < i && kept@[a] == self.entries@[b];
                        assert(self.entries@[b].key != self.entries@[i as int].key);
                    }
                }
                kept.push(e);
            }
            i = i + 1;
        }
        self.entries = kept;
    }

    /// The number of tracked connections.
    pub fn len(&self) -> (r: usize)
        ensures
            r == self.entries@.len(),
    {
        self.entries.len()
    }

    /// Whether the tracker is empty.
    pub fn is_empty(&self) -> (r: bool)
        ensures
            r == (self.entries@.len() == 0),
    {
        self.entries.is_empty()
    }

    /// Remove every entry.
    pub fn clear(&mut self)
        ensures
            final(self).wf(),
            final(self).entries@.len() == 0,
            final(self).timeout_ms == old(self).timeout_ms,
    {
        self.entries.clear();
    }
}

/// Hop-table freshness: after recording a TTL at clock `t0`, a lookup
/// after `delta` more milliseconds yields that TTL exactly when `delta`
/// is below the timeout.
pub proof fn lemma_hop_freshness(t: TcpConnTracker, key: ConnKey, ttl: u8, t0: u64, delta: u64)
    requires
        spec_find_hop(t.entries@, key) == Some((TcpHopEntry { key, ttl, created_ms: t0 })),
        t0 + delta <= u64::MAX,
    ensures
        spec_hop_lookup(t.entries@, key, (t0 + delta) as u64, t.timeout_ms) == (if delta
            < t.timeout_ms {
            Some(ttl)
        } else {
            None
        }),
{
}

/// Unique keys let a removal take exactly one key out: the removed key
/// is no longer found, every other key is found as before.
proof fn lemma_remove_unique(s: Seq<TcpHopEntry>, i: int, key: ConnKey)
    requires
        0 <= i < s.len(),
        s[i].key == key,
        forall|a: int, b: int|
            0 <= a < b < s.len() ==> (#[trigger] s[a]).key != (#[trigger] s[b]).key,
    ensures
        spec_find_hop(s.remove(i), key) is None,
        forall|k: ConnKey|
            k != key ==> #[trigger] spec_find_hop(s.remove(i), k) == spec_find_hop(s, k),
        forall|a: int, b: int|
            0 <= a < b < s.remove(i).len() ==> (#[trigger] s.remove(i)[a]).key != (
            #[trigger] s.remove(i)[b]).key,
    decreases s.len(),
{
    let r = s.remove(i);
    if i == 0 {
        assert(r =~= s.skip(1));
        lemma_find_not_present(s.skip(1), key);
        assert forall|k: ConnKey| k != key implies #[trigger] spec_find_hop(r, k)
            == spec_find_hop(s, k) by {
            assert(spec_find_hop(s, k) == spec_find_hop(s.skip(1), k));
        }
    } else {
        assert(s.len() >= 2);
        assert(r[0] == s[0]);
        assert(r.skip(1) =~= s.skip(1).remove(i - 1));
        assert forall|a: int, b: int| 0 <= a < b < s.skip(1).len() implies (#[trigger] s.skip(
            1,
        )[a]).key != (#[trigger] s.skip(1)[b]).key by {
            assert(s.skip(1)[a] == s[a + 1] && s.skip(1)[b] == s[b + 1]);
        }
        lemma_remove_unique(s.skip(1), i - 1, key);
        assert(s[0].key != key);
        assert(spec_find_hop(r, key) == spec_find_hop(r.skip(1), key));
        assert forall|k: ConnKey| k != key implies #[trigger] spec_find_hop(r, k)
            == spec_find_hop(s, k) by {
            if s[0].key == k {
            } else {
                assert(spec_find_hop(r, k) == spec_find_hop(r.skip(1), k));
                assert(spec_find_hop(s, k) == spec_find_hop(s.skip(1), k));
            }
        }
        assert forall|a: int, b: int| 0 <= a < b < r.len() implies (#[trigger] r[a]).key != (
        #[trigger] r[b]).key by {
            if a == 0 {
                assert(r[b] == r.skip(1)[b - 1]);
                lemma_find_absent_key_of_unique(s, r.skip(1), i, b - 1);
            } else {
                assert(r[a] == r.skip(1)[a - 1] && r[b] == r.skip(1)[b - 1]);
            }
        }
    }
}

/// In the else-branch of a removal, the head differs from every kept
/// tail entry because the original keys were unique.
proof fn lemma_find_absent_key_of_unique(
    s: Seq<TcpHopEntry>,
    tail: Seq<TcpHopEntry>,
    i: int,
    b: int,
)
    requires
        0 < i < s.len(),
        tail =~= s.skip(1).remove(i - 1),
        0 <= b < tail.len(),
        forall|a: int, c: int|
            0 <= a < c < s.len() ==> (#[trigger] s[a]).key != (#[trigger] s[c]).key,
    ensures
        s[0].key != tail[b].key,
{
    if b < i - 1 {
        assert(tail[b] == s[b + 1]);
    } else {
        assert(tail[b] == s[b + 2]);
    }
}

/// A key that occurs nowhere in the sequence is not found.
proof fn lemma_find_not_present(s: Seq<TcpHopEntry>, key: ConnKey)
    requires
        forall|a: int| 0 <= a < s.len() ==> (#[trigger] s[a]).key != key,
    ensures
        spec_find_hop(s, key) is None,
    decreases s.len(),
{
    if s.len() > 0 {
        lemma_find_not_present(s.skip(1), key);
    }
}

/// Pushing an entry whose key is not yet present makes it the one
/// found, and leaves every other key as it was.
proof fn lemma_push_find(s: Seq<TcpHopEntry>, e: TcpHopEntry)
    requires
        spec_find_hop(s, e.key) is None,
    ensures
        spec_find_hop(s.push(e), e.key) == Some(e),
        forall|k: ConnKey|
            k != e.key ==> #[trigger] spec_find_hop(s.push(e), k) == spec_find_hop(s, k),
        (forall|a: int, b: int|
            0 <= a < b < s.len() ==> (#[trigger] s[a]).key != (#[trigger] s[b]).key) ==> forall|
            a: int,
            b: int,
        |
            0 <= a < b < s.push(e).len() ==> (#[trigger] s.push(e)[a]).key != (
            #[trigger] s.push(e)[b]).key,
    decreases s.len(),
{
    lemma_find_absent_key(s, e.key);
    if s.len() == 0 {
        assert(s.push(e)[0] == e);
        assert(s.push(e).skip(1) =~= Seq::<TcpHopEntry>::empty());
        assert forall|k: ConnKey| k != e.key implies #[trigger] spec_find_hop(s.push(e), k)
            == spec_find_hop(s, k) by {
            assert(spec_find_hop(s.push(e), k) == spec_find_hop(s.push(e).skip(1), k));
        }
    } else {
        assert(s.push(e)[0] == s[0]);
        assert(s.push(e).skip(1) =~= s.skip(1).push(e));
        lemma_push_find(s.skip(1), e);
        assert(s[0].key != e.key);
        assert(spec_find_hop(s.push(e), e.key) == spec_find_hop(s.skip(1).push(e), e.key));
        assert forall|k: ConnKey| k != e.key implies #[trigger] spec_find_hop(s.push(e), k)
            == spec_find_hop(s, k) by {
            if s[0].key == k {
            } else {
                assert(spec_find_hop(s.push(e), k) == spec_find_hop(s.skip(1).push(e), k));
                assert(spec_find_hop(s, k) == spec_find_hop(s.skip(1), k));
            }
        }
    }
    if (forall|a: int, b: int|
        0 <= a < b < s.len() ==> (#[trigger] s[a]).key != (#[trigger] s[b]).key) {
        assert forall|a: int, b: int| 0 <= a < b < s.push(e).len() implies (#[trigger] s.push(
            e,
        )[a]).key != (#[trigger] s.push(e)[b]).key by {
            if b == s.len() {
                assert(s.push(e)[a] == s[a]);
                assert(s.push(e)[b] == e);
            } else {
                assert(s.push(e)[a] == s[a] && s.push(e)[b] == s[b]);
            }
        }
    }
}

/// A key that is not found occurs nowhere.
proof fn lemma_find_absent_key(s: Seq<TcpHopEntry>, key: ConnKey)
    requires
        spec_find_hop(s, key) is None,
    ensures
        forall|a: int| 0 <= a < s.len() ==> (#[trigger] s[a]).key != key,
    decreases s.len(),
{
    if s.len() > 0 {
        lemma_find_absent_key(s.skip(1), key);
        assert forall|a: int| 0 <= a < s.len() implies (#[trigger] s[a]).key != key by {
            if a > 0 {
                assert(s[a] == s.skip(1)[a - 1]);
            }
        }
    }
}

/// One tracked DNS query: the client's source port, the original
/// destination, and when it was recorded.
#[derive(Debug, Clone, Copy, PartialEq, Eq, Structural)]
pub struct DnsQueryEntry {
    /// Client source port of the query, the key.
    pub src_port: u16,
    /// Original destination address of the query.
    pub dst_ip: IpAddress,
    /// Original destination port of the query.
    pub dst_port: u16,
    /// Clock reading at the time of tracking, in milliseconds.
    pub created_ms: u64,
}

/// The first entry with the given source port, scanning from the front.
pub open spec fn spec_find_dns(s: Seq<DnsQueryEntry>, port: u16) -> Option<DnsQueryEntry>
    decreases s.len(),
{
    if s.len() == 0 {
        None
    } else if s[0].src_port == port {
        Some(s[0])
    } else {
        spec_find_dns(s.skip(1), port)
    }
}

/// How many entries carry the given source port.
pub open spec fn spec_count_dns(s: Seq<DnsQueryEntry>, port: u16) -> int
    decreases s.len(),
{
    if s.len() == 0 {
        0
    } else {
        (if s[0].src_port == port {
            1int
        } else {
            0int
        }) + spec_count_dns(s.skip(1), port)
    }
}

/// What a lookup at clock `now` returns on table contents `s` with the
/// given timeout.
pub open spec fn spec_dns_lookup(
    s: Seq<DnsQueryEntry>,
    port: u16,
    now: u64,
    timeout_ms: u64,
) -> Option<(IpAddress, u16)> {
    match spec_find_dns(s, port) {
        Option::None => None,
        Option::Some(e) => {
            if now >= e.created_ms && now - e.created_ms < timeout_ms {
                Some((e.dst_ip, e.dst_port))
            } else {
                None
            }
        },
    }
}

/// Tracker of redirected DNS queries.
///
/// Before a query is redirected to an alternate resolver, its original
/// destination is recorded keyed by the client's ephemeral source port,
/// so the response can be rewritten to appear from the original server.
/// Entries expire after 5 seconds unless another timeout is configured.
#[derive(Debug)]
pub struct DnsConnTracker {
    /// Tracked queries; source ports are unique.
    pub entries: Vec<DnsQueryEntry>,
    /// Entry timeout in milliseconds.
    pub timeout_ms: u64,
}

impl DnsConnTracker {
    /// Every source port occurs at most once.
    pub open spec fn wf(self) -> bool {
        forall|i: int, j: int|
            0 <= i < j < self.entries@.len() ==> (#[trigger] self.entries@[i]).src_port != (
            #[trigger] self.entries@[j]).src_port
    }

    /// A new tracker with the default 5-second timeout.
    pub fn new() -> (r: DnsConnTracker)
        ensures
            r.wf(),
            r.entries@.len() == 0,
            r.timeout_ms == 5000,
    {
        DnsConnTracker { entries: Vec::new(), timeout_ms: 5000 }
    }

    /// A new tracker with the given timeout in milliseconds.
    pub fn with_timeout(timeout_ms: u64) -> (r: DnsConnTracker)
        ensures
            r.wf(),
            r.entries@.len() == 0,
            r.timeout_ms == timeout_ms,
    {
        DnsConnTracker { entries: Vec::new(), timeout_ms }
    }

    /// The index of the entry with the given port, if present.
    #[verifier::loop_isolation(false)]
    fn find_index(&self, port: u16) -> (r: Option<usize>)
        ensures
            match r {
                Some(i) => i < self.entries@.len() && self.entries@[i as int].src_port == port
                    && spec_find_dns(self.entries@, port) == Some(self.entries@[i as int]),
                None => spec_find_dns(self.entries@, port) is None,
            },
    {
        let n = self.entries.len();
        proof {
            assert(self.entries@.skip(0) =~= self.entries@);
        }
        let mut i: usize = 0;
        while i < n
            invariant
                i <= n,
                spec_find_dns(self.entries@, port) == spec_find_dns(
                    self.entries@.skip(i as int),
                    port,
                ),
            decreases n - i,
        {
            let e = self.entries[i];
            proof {
                assert(self.entries@.skip(i as int)[0] == self.entries@[i as int]);
                assert(self.entries@.skip(i as int).skip(1) =~= self.entries@.skip(i + 1));
            }
            if e.src_port == port {
                return Some(i);
            }
            i = i + 1;
        }
        proof {
            assert(self.entries@.skip(n as int).len() == 0);
        }
        None
    }

    /// Track a query, replacing any previous entry with the same port.
    pub fn track_query(&mut self, src_port: u16, dst_ip: IpAddress, dst_port: u16, now_ms: u64)
        requires
            old(self).wf(),
        ensures
            final(self).wf(),
            final(self).timeout_ms == old(self).timeout_ms,
            spec_find_dns(final(self).entries@, src_port) == Some(
                (DnsQueryEntry { src_port, dst_ip, dst_port, created_ms: now_ms }),
            ),
            spec_count_dns(final(self).entries@, src_port) == 1,
            forall|p: u16|
                p != src_port ==> #[trigger] spec_find_dns(final(self).entries@, p)
                    == spec_find_dns(old(self).entries@, p),
    {
        match self.find_index(src_port) {
            Some(i) => {
                let ghost before = self.entries@;
                self.entries.remove(i);
                proof {
                    lemma_dns_remove_unique(before, i as int, src_port);
                }
            },
            None => {
            },
        }
        let ghost mid = self.entries@;
        self.entries.push(DnsQueryEntry { src_port, dst_ip, dst_port, created_ms: now_ms });
        proof {
            lemma_dns_push_find(mid, (DnsQueryEntry { src_port, dst_ip, dst_port, created_ms: now_ms }));
            lemma_dns_unique_count(final(self).entries@, src_port);
        }
    }

    /// Look up the original destination of a redirected query.  Returns
    /// it while the entry is younger than the timeout; an expired entry
    /// is removed.
    pub fn get_original(&mut self, src_port: u16, now_ms: u64) -> (r: Option<(IpAddress, u16)>)
        requires
            old(self).wf(),
        ensures
            final(self).wf(),
            final(self).timeout_ms == old(self).timeout_ms,
            r == spec_dns_lookup(old(self).entries@, src_port, now_ms, old(self).timeout_ms),
            r is Some ==> *final(self) == *old(self),
            forall|p: u16|
                p != src_port ==> #[trigger] spec_find_dns(final(self).entries@, p)
                    == spec_find_dns(old(self).entries@, p),
    {
        match self.find_index(src_port) {
            Some(i) => {
                let e = self.entries[i];
                if now_ms >= e.created_ms && now_ms - e.created_ms < self.timeout_ms {
                    Some((e.dst_ip, e.dst_port))
                } else {
                    let ghost before = self.entries@;
                    self.entries.remove(i);
                    proof {
                        lemma_dns_remove_unique(before, i as int, src_port);
                    }
                    None
                }
            },
            None => None,
        }
    }

    /// Remove the entry for a port, once the response has been handled.
    pub fn remove(&mut self, src_port: u16)
        requires
            old(self).wf(),
        ensures
            final(self).wf(),
            final(self).timeout_ms == old(self).timeout_ms,
            spec_find_dns(final(self).entries@, src_port) is None,
            forall|p: u16|
                p != src_port ==> #[trigger] spec_find_dns(final(self).entries@, p)
                    == spec_find_dns(old(self).entries@, p),
    {
        match self.find_index(src_port) {
            Some(i) => {
                let ghost before = self.entries@;
                self.entries.remove(i);
                proof {
                    lemma_dns_remove_unique(before, i as int, src_port);
                }
            },
            None => {
            },
        }
    }

    /// Remove every entry older than the timeout.
    #[verifier::loop_isolation(false)]
    pub fn cleanup(&mut self, now_ms: u64)
        requires
            old(self).wf(),
        ensures
            final(self).wf(),
            final(self).timeout_ms == old(self).timeout_ms,
            forall|i: int|
                0 <= i < final(self).entries@.len() ==> {
                    let e = #[trigger] final(self).entries@[i];
                    now_ms >= e.created_ms ==> now_ms - e.created_ms < final(self).timeout_ms
                },
    {
        let n = self.entries.len();
        let mut kept: Vec<DnsQueryEntry> = Vec::new();
        let mut i: usize = 0;
        while i < n
            invariant
                i <= n,
                *self == *old(self),
                forall|a: int, b: int|
                    0 <= a < b < kept@.len() ==> (#[trigger] kept@[a]).src_port != (
                    #[trigger] kept@[b]).src_port,
                forall|a: int|
                    0 <= a < kept@.len() ==> exists|b: int|
                        0 <= b < i && #[trigger] kept@[a] == self.entries@[b],
                forall|a: int|
                    0 <= a < kept@.len() ==> {
                        let e = #[trigger] kept@[a];
                        now_ms >= e.created_ms ==> now_ms - e.created_ms < self.timeout_ms
                    },
            decreases n - i,
        {
            let e = self.entries[i];
            if !(now_ms >= e.created_ms && now_ms - e.created_ms >= self.timeout_ms) {
                proof {
                    assert forall|a: int| 0 <= a < kept@.len() implies (#[trigger] kept@[a]).src_port
                        != e.src_port by {
                        let b = choose|b: int| 0 <= b < i && kept@[a] == self.entries@[b];
                        assert(self.entries@[b].src_port != self.entries@[i as int].src_port);
                    }
                }
                kept.push(e);
            }
            i = i + 1;
        }
        self.entries = kept;
    }

    /// The number of tracked queries.
    pub fn len(&self) -> (r: usize)
        ensures
            r == self.entries@.len(),
    {
        self.entries.len()
    }

    /// Whether the tracker is empty.
    pub fn is_empty(&self) -> (r: bool)
        ensures
            r == (self.entries@.len() == 0),
    {
        self.entries.is_empty()
    }

    /// Remove every entry.
    pub fn clear(&mut self)
        ensures
            final(self).wf(),
            final(self).entries@.len() == 0,
            final(self).timeout_ms == old(self).timeout_ms,
    {
        self.entries.clear();
    }
}

/// Query-table freshness, the DNS analogue of `lemma_hop_freshness`.
pub proof fn lemma_dns_freshness(
    t: DnsConnTracker,
    src_port: u16,
    dst_ip: IpAddress,
    dst_port: u16,
    t0: u64,
    delta: u64,
)
    requires
        spec_find_dns(t.entries@, src_port) == Some(
            (DnsQueryEntry { src_port, dst_ip, dst_port, created_ms: t0 }),
        ),
        t0 + delta <= u64::MAX,
    ensures
        spec_dns_lookup(t.entries@, src_port, (t0 + delta) as u64, t.timeout_ms) == (if delta
            < t.timeout_ms {
            Some((dst_ip, dst_port))
        } else {
            None
        }),
{
}

/// With unique ports, a found port is carried by exactly one entry.
proof fn lemma_dns_unique_count(s: Seq<DnsQueryEntry>, port: u16)
    requires
        forall|a: int, b: int|
            0 <= a < b < s.len() ==> (#[trigger] s[a]).src_port != (#[trigger] s[b]).src_port,
        spec_find_dns(s, port) is Some,
    ensures
        spec_count_dns(s, port) == 1,
    decreases s.len(),
{
    if s[0].src_port == port {
        assert forall|a: int| 0 <= a < s.skip(1).len() implies (#[trigger] s.skip(
            1,
        )[a]).src_port != port by {
            assert(s.skip(1)[a] == s[a + 1]);
        }
        lemma_dns_count_absent(s.skip(1), port);
    } else {
        assert forall|a: int, b: int| 0 <= a < b < s.skip(1).len() implies (#[trigger] s.skip(
            1,
        )[a]).src_port != (#[trigger] s.skip(1)[b]).src_port by {
            assert(s.skip(1)[a] == s[a + 1] && s.skip(1)[b] == s[b + 1]);
        }
        lemma_dns_unique_count(s.skip(1), port);
    }
}

/// A port carried by no entry is counted zero times.
proof fn lemma_dns_count_absent(s: Seq<DnsQueryEntry>, port: u16)
    requires
        forall|a: int| 0 <= a < s.len() ==> (#[trigger] s[a]).src_port != port,
    ensures
        spec_count_dns(s, port) == 0,
    decreases s.len(),
{
    if s.len() > 0 {
        assert forall|a: int| 0 <= a < s.skip(1).len() implies (#[trigger] s.skip(
            1,
        )[a]).src_port != port by {
            assert(s.skip(1)[a] == s[a + 1]);
        }
        lemma_dns_count_absent(s.skip(1), port);
    }
}

/// Unique ports let a removal take exactly one port out.
proof fn lemma_dns_remove_unique(s: Seq<DnsQueryEntry>, i: int, port: u16)
    requires
        0 <= i < s.len(),
        s[i].src_port == port,
        forall|a: int, b: int|
            0 <= a < b < s.len() ==> (#[trigger] s[a]).src_port != (#[trigger] s[b]).src_port,
    ensures
        spec_find_dns(s.remove(i), port) is None,
        forall|p: u16|
            p != port ==> #[trigger] spec_find_dns(s.remove(i), p) == spec_find_dns(s, p),
        forall|a: int, b: int|
            0 <= a < b < s.remove(i).len() ==> (#[trigger] s.remove(i)[a]).src_port != (
            #[trigger] s.remove(i)[b]).src_port,
    decreases s.len(),
{
    let r = s.remove(i);
    if i == 0 {
        assert(r =~= s.skip(1));
        lemma_dns_find_not_present(s.skip(1), port);
        assert forall|p: u16| p != port implies #[trigger] spec_find_dns(r, p)
            == spec_find_dns(s, p) by {
            assert(spec_find_dns(s, p) == spec_find_dns(s.skip(1), p));
        }
    } else {
        assert(s.len() >= 2);
        assert(r[0] == s[0]);
        assert(r.skip(1) =~= s.skip(1).remove(i - 1));
        assert forall|a: int, b: int| 0 <= a < b < s.skip(1).len() implies (#[trigger] s.skip(
            1,
        )[a]).src_port != (#[trigger] s.skip(1)[b]).src_port by {
            assert(s.skip(1)[a] == s[a + 1] && s.skip(1)[b] == s[b + 1]);
        }
        lemma_dns_remove_unique(s.skip(1), i - 1, port);
        assert(s[0].src_port != port);
        assert(spec_find_dns(r, port) == spec_find_dns(r.skip(1), port));
        assert forall|p: u16| p != port implies #[trigger] spec_find_dns(r, p)
            == spec_find_dns(s, p) by {
            if s[0].src_port == p {
            } else {
                assert(spec_find_dns(r, p) == spec_find_dns(r.skip(1), p));
                assert(spec_find_dns(s, p) == spec_find_dns(s.skip(1), p));
            }
        }
        assert forall|a: int, b: int| 0 <= a < b < r.len() implies (#[trigger] r[a]).src_port
            != (#[trigger] r[b]).src_port by {
            if a == 0 {
                assert(r[b] == r.skip(1)[b - 1]);
                lemma_dns_head_differs(s, r.skip(1), i, b - 1);
            } else {
                assert(r[a] == r.skip(1)[a - 1] && r[b] == r.skip(1)[b - 1]);
            }
        }
    }
}

/// In the else-branch of a removal, the head differs from every kept
/// tail entry because the original ports were unique.
proof fn lemma_dns_head_differs(s: Seq<DnsQueryEntry>, tail: Seq<DnsQueryEntry>, i: int, b: int)
    requires
        0 < i < s.len(),
        tail =~= s.skip(1).remove(i - 1),
        0 <= b < tail.len(),
        forall|a: int, c: int|
            0 <= a < c < s.len() ==> (#[trigger] s[a]).src_port != (#[trigger] s[c]).src_port,
    ensures
        s[0].src_port != tail[b].src_port,
{
    if b < i - 1 {
        assert(tail[b] == s[b + 1]);
    } else {
        assert(tail[b] == s[b + 2]);
    }
}

/// A port that occurs nowhere in the sequence is not found.
proof fn lemma_dns_find_not_present(s: Seq<DnsQueryEntry>, port: u16)
    requires
        forall|a: int| 0 <= a < s.len() ==> (#[trigger] s[a]).src_port != port,
    ensures
        spec_find_dns(s, port) is None,
    decreases s.len(),
{
    if s.len() > 0 {
        assert forall|a: int| 0 <= a < s.skip(1).len() implies (#[trigger] s.skip(
            1,
        )[a]).src_port != port by {
            assert(s.skip(1)[a] == s[a + 1]);
        }
        lemma_dns_find_not_present(s.skip(1), port);
    }
}

/// Pushing an entry whose port is not yet present makes it the one
/// found, and leaves every other port as it was.
proof fn lemma_dns_push_find(s: Seq<DnsQueryEntry>, e: DnsQueryEntry)
    requires
        spec_find_dns(s, e.src_port) is None,
    ensures
        spec_find_dns(s.push(e), e.src_port) == Some(e),
        forall|p: u16|
            p != e.src_port ==> #[trigger] spec_find_dns(s.push(e), p) == spec_find_dns(s, p),
        (forall|a: int, b: int|
            0 <= a < b < s.len() ==> (#[trigger] s[a]).src_port != (#[trigger] s[b]).src_port)
            ==> forall|a: int, b: int|
            0 <= a < b < s.push(e).len() ==> (#[trigger] s.push(e)[a]).src_port != (
            #[trigger] s.push(e)[b]).src_port,
    decreases s.len(),
{
    lemma_dns_find_absent_port(s, e.src_port);
    if s.len() == 0 {
        assert(s.push(e)[0] == e);
        assert(s.push(e).skip(1) =~= Seq::<DnsQueryEntry>::empty());
        assert forall|p: u16| p != e.src_port implies #[trigger] spec_find_dns(s.push(e), p)
            == spec_find_dns(s, p) by {
            assert(spec_find_dns(s.push(e), p) == spec_find_dns(s.push(e).skip(1), p));
        }
    } else {
        assert(s.push(e)[0] == s[0]);
        assert(s.push(e).skip(1) =~= s.skip(1).push(e));
        lemma_dns_push_find(s.skip(1), e);
        assert(s[0].src_port != e.src_port);
        assert(spec_find_dns(s.push(e), e.src_port) == spec_find_dns(
            s.skip(1).push(e),
            e.src_port,
        ));
        assert forall|p: u16| p != e.src_port implies #[trigger] spec_find_dns(s.push(e), p)
            == spec_find_dns(s, p) by {
            if s[0].src_port == p {
            } else {
                assert(spec_find_dns(s.push(e), p) == spec_find_dns(s.skip(1).push(e), p));
                assert(spec_find_dns(s, p) == spec_find_dns(s.skip(1), p));
            }
        }
    }
    if (forall|a: int, b: int|
        0 <= a < b < s.len() ==> (#[trigger] s[a]).src_port != (#[trigger] s[b]).src_port) {
        assert forall|a: int, b: int| 0 <= a < b < s.push(e).len() implies (#[trigger] s.push(
            e,
        )[a]).src_port != (#[trigger] s.push(e)[b]).src_port by {
            if b == s.len() {
                assert(s.push(e)[a] == s[a]);
                assert(s.push(e)[b] == e);
            } else {
                assert(s.push(e)[a] == s[a] && s.push(e)[b] == s[b]);
            }
        }
    }
}

/// A port that is not found occurs nowhere.
proof fn lemma_dns_find_absent_port(s: Seq<DnsQueryEntry>, port: u16)
    requires
        spec_find_dns(s, port) is None,
    ensures
        forall|a: int| 0 <= a < s.len() ==> (#[trigger] s[a]).src_port != port,
    decreases s.len(),
{
    if s.len() > 0 {
        lemma_dns_find_absent_port(s.skip(1), port);
        assert forall|a: int| 0 <= a < s.len() implies (#[trigger] s[a]).src_port != port by {
            if a > 0 {
                assert(s[a] == s.skip(1)[a - 1]);
            }
        }
    }
}


} // verus!

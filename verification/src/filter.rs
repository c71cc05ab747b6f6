//! The domain filter: whitelist or blacklist of hostnames, with exact
//! entries and wildcard-suffix entries.
//!
//! Hostnames are lower-cased on insert and on lookup.  A hostname
//! matches when the exact set contains it, or when it or any ancestor
//! obtained by stripping leading labels is in the wildcard set.  In
//! whitelist mode a matching domain bypasses the engine; in blacklist
//! mode only matching domains are transformed.

use crate::util::{bytes_eq, lower_bytes, spec_lower_bytes, find_seq_from, spec_match_at};
use vstd::prelude::*;
use vstd::string::*;

verus! {

/// How the filter treats its domain list.
#[derive(Debug, Clone, Copy, PartialEq, Eq, Structural)]
pub enum FilterMode {
    /// No filtering: all domains are processed.
    Disabled,
    /// Listed domains skip the bypass and pass as normal traffic.
    Whitelist,
    /// Only listed domains get the bypass applied.
    Blacklist,
}

/// The outcome of a filter check for one hostname.
#[derive(Debug, Clone, Copy, PartialEq, Eq, Structural)]
pub enum FilterResult {
    /// Apply the DPI bypass to this domain.
    ApplyBypass,
    /// Skip the bypass; let the traffic pass normally.
    SkipBypass,
}

/// Whether some entry of `s` holds exactly the bytes `x`.
pub open spec fn spec_has(s: Seq<Vec<u8>>, x: Seq<u8>) -> bool {
    exists|i: int| 0 <= i < s.len() && (#[trigger] s[i])@ == x
}

/// Whether `b` is an ASCII whitespace byte.
pub open spec fn spec_is_ws(b: u8) -> bool {
    b == 32 || b == 9 || b == 10 || b == 13
}

/// `s` without leading ASCII whitespace.
pub open spec fn spec_trim_front(s: Seq<u8>) -> Seq<u8>
    decreases s.len(),
{
    if s.len() > 0 && spec_is_ws(s[0]) {
        spec_trim_front(s.skip(1))
    } else {
        s
    }
}

/// `s` without trailing ASCII whitespace.
pub open spec fn spec_trim_back(s: Seq<u8>) -> Seq<u8>
    decreases s.len(),
{
    if s.len() > 0 && spec_is_ws(s[s.len() - 1]) {
        spec_trim_back(s.take(s.len() - 1))
    } else {
        s
    }
}

/// `s` trimmed of ASCII whitespace on both sides.
pub open spec fn spec_trim(s: Seq<u8>) -> Seq<u8> {
    spec_trim_back(spec_trim_front(s))
}

/// A domain string as the filter stores it: trimmed and lower-cased.
pub open spec fn spec_clean_domain(s: Seq<u8>) -> Seq<u8> {
    spec_lower_bytes(spec_trim(s))
}

/// Whether the filter has taken the raw entry `raw` in: an empty or
/// comment entry needs nothing; a wildcard entry's cleaned form is in
/// the wildcard set, any other in the exact set.
pub open spec fn spec_entry_loaded(f: DomainFilter, raw: Seq<u8>) -> bool {
    let c = spec_clean_domain(raw);
    if c.len() == 0 || c[0] == 35 {
        true
    } else if c.len() >= 2 && c[0] == 42 && c[1] == 46 {
        spec_has(f.wildcard_domains@, c.skip(2))
    } else {
        spec_has(f.exact_domains@, c)
    }
}

/// Whether `[i, j)` is one line of `b`: a maximal non-empty segment
/// free of line-break bytes.
pub open spec fn spec_is_line(b: Seq<u8>, i: int, j: int) -> bool {
    &&& 0 <= i < j <= b.len()
    &&& (i == 0 || b[i - 1] == 10)
    &&& (j == b.len() || b[j] == 10)
    &&& forall|k: int| i <= k < j ==> b[k] != 10
}

/// Whether a line is taken by the loader: cleaned, it is neither empty
/// nor a comment.
pub open spec fn spec_line_taken(l: Seq<u8>) -> bool {
    let c = spec_clean_domain(l);
    c.len() > 0 && c[0] != 35
}

/// How many taken lines remain from loader state `(start, i)`: `start`
/// is where the current line began, `i` the scan position.
pub open spec fn spec_taken_count(b: Seq<u8>, start: int, i: int) -> int
    decreases b.len() - i,
{
    if i < 0 || i >= b.len() {
        if start < b.len() && spec_line_taken(b.subrange(start, b.len() as int)) {
            1
        } else {
            0
        }
    } else if b[i] == 10 {
        (if start < i && spec_line_taken(b.subrange(start, i)) {
            1int
        } else {
            0int
        }) + spec_taken_count(b, i + 1, i + 1)
    } else {
        spec_taken_count(b, start, i + 1)
    }
}

/// The filter of hostnames the engine should or should not transform.
#[derive(Debug)]
pub struct DomainFilter {
    /// Current filter mode.
    pub mode: FilterMode,
    /// Exact domain entries, lower-cased.
    pub exact_domains: Vec<Vec<u8>>,
    /// Wildcard entries, lower-cased and stored without the leading
    /// "*." marker.
    pub wildcard_domains: Vec<Vec<u8>>,
}

/// Whether a lower-cased hostname matches the filter: the exact set
/// contains it, or the wildcard set contains it or any suffix that
/// starts right after a dot.
pub open spec fn spec_filter_matches(f: DomainFilter, h: Seq<u8>) -> bool {
    ||| spec_has(f.exact_domains@, h)
    ||| spec_has(f.wildcard_domains@, h)
    ||| exists|i: int|
        0 <= i < h.len() && h[i] == 46 && spec_has(f.wildcard_domains@, h.skip(i + 1))
}

/// What `check` answers for a lower-cased hostname.
pub open spec fn spec_filter_check(f: DomainFilter, h: Seq<u8>) -> FilterResult {
    match f.mode {
        FilterMode::Disabled => FilterResult::ApplyBypass,
        FilterMode::Whitelist => if spec_filter_matches(f, h) {
            FilterResult::SkipBypass
        } else {
            FilterResult::ApplyBypass
        },
        FilterMode::Blacklist => if spec_filter_matches(f, h) {
            FilterResult::ApplyBypass
        } else {
            FilterResult::SkipBypass
        },
    }
}

/// Whether some entry of `set` holds exactly the bytes `x`.
fn set_contains(set: &Vec<Vec<u8>>, x: &[u8]) -> (r: bool)
    ensures
        r == spec_has(set@, x@),
{
    let n = set.len();
    let mut i: usize = 0;
    while i < n
        invariant
            n == set@.len(),
            i <= n,
            forall|j: int| 0 <= j < i ==> (#[trigger] set@[j])@ != x@,
        decreases n - i,
    {
        if bytes_eq(set[i].as_slice(), x) {
            return true;
        }
        i = i + 1;
    }
    false
}

/// Append `x` to `set` unless an entry already holds those bytes.
fn set_insert(set: &mut Vec<Vec<u8>>, x: Vec<u8>)
    ensures
        forall|y: Seq<u8>| #[trigger]
            spec_has(final(set)@, y) == (spec_has(old(set)@, y) || y == x@),
{
    let ghost xs = x@;
    if !set_contains(set, x.as_slice()) {
        let ghost before = set@;
        set.push(x);
        proof {
            assert forall|y: Seq<u8>| #[trigger] spec_has(set@, y) == (spec_has(before, y) || y
                == xs) by {
                if spec_has(before, y) {
                    let i = choose|i: int| 0 <= i < before.len() && (#[trigger] before[i])@ == y;
                    assert(set@[i]@ == y);
                } else if y == xs {
                    assert(set@[before.len() as int]@ == y);
                } else {
                    if spec_has(set@, y) {
                        let i = choose|i: int|
                            0 <= i < set@.len() && (#[trigger] set@[i])@ == y;
                        assert(i < before.len() ==> before[i]@ == y);
                    }
                }
            }
        }
    }
}

/// Remove every entry holding exactly the bytes `x`.
#[verifier::loop_isolation(false)]
fn set_remove(set: &mut Vec<Vec<u8>>, x: &[u8])
    ensures
        forall|y: Seq<u8>| #[trigger]
            spec_has(final(set)@, y) == (spec_has(old(set)@, y) && y != x@),
{
    let n = set.len();
    let mut kept: Vec<Vec<u8>> = Vec::new();
    let mut i: usize = 0;
    while i < n
        invariant
            *set == *old(set),
            i <= n,
            forall|a: int|
                0 <= a < kept@.len() ==> (#[trigger] kept@[a])@ != x@ && exists|b: int|
                    0 <= b < i && kept@[a]@ == (#[trigger] set@[b])@,
            forall|b: int|
                0 <= b < i && (#[trigger] set@[b])@ != x@ ==> spec_has(kept@, set@[b]@),
        decreases n - i,
    {
        let keep = !bytes_eq(set[i].as_slice(), x);
        if keep {
            let e = set[i].clone();
            proof {
                assert(e@ == set@[i as int]@);
            }
            let ghost before = kept@;
            kept.push(e);
            proof {
                assert forall|b: int|
                    0 <= b < i + 1 && (#[trigger] set@[b])@ != x@ implies spec_has(
                    kept@,
                    set@[b]@,
                ) by {
                    if b < i {
                        let a = choose|a: int|
                            0 <= a < before.len() && (#[trigger] before[a])@ == set@[b]@;
                        assert(kept@[a]@ == set@[b]@);
                    } else {
                        assert(kept@[before.len() as int]@ == set@[b]@);
                    }
                }
            }
        }
        i = i + 1;
    }
    set.clear();
    set.append(&mut kept);
    proof {
        assert forall|y: Seq<u8>| #[trigger] spec_has(set@, y) == (spec_has(old(set)@, y) && y
            != x@) by {
            if spec_has(set@, y) {
                let a = choose|a: int| 0 <= a < set@.len() && (#[trigger] set@[a])@ == y;
                let b = choose|b: int|
                    0 <= b < n && set@[a]@ == (#[trigger] old(set)@[b])@;
                assert(old(set)@[b]@ == y);
            } else {
                if spec_has(old(set)@, y) && y != x@ {
                    let b = choose|b: int|
                        0 <= b < old(set)@.len() && (#[trigger] old(set)@[b])@ == y;
                }
            }
        }
    }
}

impl DomainFilter {
    /// A new, empty, disabled filter.
    pub fn new() -> (r: DomainFilter)
        ensures
            r.mode == FilterMode::Disabled,
            r.exact_domains@.len() == 0,
            r.wildcard_domains@.len() == 0,
    {
        DomainFilter {
            mode: FilterMode::Disabled,
            exact_domains: Vec::new(),
            wildcard_domains: Vec::new(),
        }
    }

    /// A filter in the given mode holding the given domains: each
    /// entry is loaded into its set, wildcard or exact.
    #[verifier::loop_isolation(false)]
    pub fn with_domains(mode: FilterMode, domains: Vec<String>) -> (r: DomainFilter)
        ensures
            r.mode == mode,
            forall|k: int|
                0 <= k < domains@.len() ==> spec_entry_loaded(
                    r,
                    vstd::utf8::encode_utf8(#[trigger] domains@[k]@),
                ),
    {
        let mut filter = DomainFilter {
            mode,
            exact_domains: Vec::new(),
            wildcard_domains: Vec::new(),
        };
        let n = domains.len();
        let mut i: usize = 0;
        while i < n
            invariant
                i <= n,
                filter.mode == mode,
                forall|k: int|
                    0 <= k < i ==> spec_entry_loaded(
                        filter,
                        vstd::utf8::encode_utf8(#[trigger] domains@[k]@),
                    ),
            decreases n - i,
        {
            let ghost before = filter;
            let entry = domains[i].as_str();
            proof {
                assert(entry.spec_bytes() == vstd::utf8::encode_utf8(domains@[i as int]@));
            }
            filter.add_domain(entry);
            proof {
                let c = spec_clean_domain(entry.spec_bytes());
                assert forall|k: int| 0 <= k < i + 1 implies spec_entry_loaded(
                    filter,
                    vstd::utf8::encode_utf8(#[trigger] domains@[k]@),
                ) by {
                    if k == i {
                        if c.len() == 0 || c[0] == 35 {
                        } else if c.len() >= 2 && c[0] == 42 && c[1] == 46 {
                            assert(spec_has(filter.wildcard_domains@, c.skip(2)));
                        } else {
                            assert(spec_has(filter.exact_domains@, c));
                        }
                    } else {
                        let ck = spec_clean_domain(
                            vstd::utf8::encode_utf8(domains@[k]@),
                        );
                        if ck.len() == 0 || ck[0] == 35 {
                        } else if ck.len() >= 2 && ck[0] == 42 && ck[1] == 46 {
                            assert(spec_has(before.wildcard_domains@, ck.skip(2)));
                            assert(spec_has(filter.wildcard_domains@, ck.skip(2)));
                        } else {
                            assert(spec_has(before.exact_domains@, ck));
                            assert(spec_has(filter.exact_domains@, ck));
                        }
                    }
                }
            }
            i = i + 1;
        }
        filter
    }

    /// The current filter mode.
    pub fn mode(&self) -> (r: FilterMode)
        ensures
            r == self.mode,
    {
        self.mode
    }

    /// Set the filter mode.
    pub fn set_mode(&mut self, mode: FilterMode)
        ensures
            final(self).mode == mode,
            final(self).exact_domains == old(self).exact_domains,
            final(self).wildcard_domains == old(self).wildcard_domains,
    {
        self.mode = mode;
    }

    /// Add a domain.  The entry is trimmed and lower-cased; an empty
    /// line or a comment starting with `#` is ignored; a leading `*.`
    /// marks a wildcard entry, stored without the marker.
    pub fn add_domain(&mut self, domain: &str)
        ensures
            final(self).mode == old(self).mode,
            ({
                let c = spec_clean_domain(domain.spec_bytes());
                if c.len() == 0 || c[0] == 35 {
                    *final(self) == *old(self)
                } else if c.len() >= 2 && c[0] == 42 && c[1] == 46 {
                    final(self).exact_domains == old(self).exact_domains && forall|y: Seq<u8>|
                        #[trigger] spec_has(final(self).wildcard_domains@, y) == (spec_has(
                            old(self).wildcard_domains@,
                            y,
                        ) || y == c.skip(2))
                } else {
                    final(self).wildcard_domains == old(self).wildcard_domains && forall|
                        y: Seq<u8>,
                    |
                        #[trigger] spec_has(final(self).exact_domains@, y) == (spec_has(
                            old(self).exact_domains@,
                            y,
                        ) || y == c)
                }
            }),
    {
        let cleaned = clean_domain(domain);
        if cleaned.len() == 0 {
            return ;
        }
        let b0 = cleaned[0];
        if b0 == 35 {
            return ;
        }
        if cleaned.len() >= 2 && b0 == 42 && cleaned[1] == 46 {
            let stripped = vstd::slice::slice_to_vec(
                vstd::slice::slice_subrange(cleaned.as_slice(), 2, cleaned.len()),
            );
            proof {
                assert(stripped@ =~= spec_clean_domain(domain.spec_bytes()).skip(2));
            }
            set_insert(&mut self.wildcard_domains, stripped);
        } else {
            set_insert(&mut self.exact_domains, cleaned);
        }
    }

    /// Remove a domain, wildcard or exact according to its `*.` marker.
    pub fn remove_domain(&mut self, domain: &str)
        ensures
            final(self).mode == old(self).mode,
            ({
                let c = spec_clean_domain(domain.spec_bytes());
                if c.len() >= 2 && c[0] == 42 && c[1] == 46 {
                    final(self).exact_domains == old(self).exact_domains && forall|y: Seq<u8>|
                        #[trigger] spec_has(final(self).wildcard_domains@, y) == (spec_has(
                            old(self).wildcard_domains@,
                            y,
                        ) && y != c.skip(2))
                } else {
                    final(self).wildcard_domains == old(self).wildcard_domains && forall|
                        y: Seq<u8>,
                    |
                        #[trigger] spec_has(final(self).exact_domains@, y) == (spec_has(
                            old(self).exact_domains@,
                            y,
                        ) && y != c)
                }
            }),
    {
        let cleaned = clean_domain(domain);
        if cleaned.len() >= 2 && cleaned[0] == 42 && cleaned[1] == 46 {
            let stripped = vstd::slice::slice_subrange(cleaned.as_slice(), 2, cleaned.len());
            proof {
                assert(stripped@ =~= spec_clean_domain(domain.spec_bytes()).skip(2));
            }
            set_remove(&mut self.wildcard_domains, stripped);
        } else {
            set_remove(&mut self.exact_domains, cleaned.as_slice());
        }
    }

    /// Remove every entry.
    pub fn clear(&mut self)
        ensures
            final(self).mode == old(self).mode,
            final(self).exact_domains@.len() == 0,
            final(self).wildcard_domains@.len() == 0,
    {
        self.exact_domains.clear();
        self.wildcard_domains.clear();
    }

    /// Whether a hostname matches any filter entry.
    #[verifier::loop_isolation(false)]
    pub fn matches(&self, hostname: &str) -> (r: bool)
        ensures
            r == spec_filter_matches(*self, spec_lower_bytes(hostname.spec_bytes())),
    {
        let hb = hostname.as_bytes();
        let hl = lower_bytes(hb);
        let ghost h = spec_lower_bytes(hostname.spec_bytes());
        if set_contains(&self.exact_domains, hl.as_slice()) {
            return true;
        }
        if set_contains(&self.wildcard_domains, hl.as_slice()) {
            return true;
        }
        let n = hl.len();
        let dot: Vec<u8> = vec![46u8];
        let mut cur: usize = 0;
        loop
            invariant
                cur <= n,
                forall|i: int| 0 <= i < cur && h[i] == 46 ==> !spec_has(
                    self.wildcard_domains@,
                    #[trigger] h.skip(i + 1),
                ),
            decreases n - cur,
        {
            let found = find_seq_from(hl.as_slice(), dot.as_slice(), cur);
            match found {
                Some(i) => {
                    proof {
                        assert(dot@ =~= seq![46u8]);
                        assert(h[i as int] == 46) by {
                            assert(h.subrange(i as int, i + 1) =~= seq![46u8]);
                        }
                        assert forall|j: int| cur <= j < i && h[j] == 46 implies false by {
                            assert(h.subrange(j, j + 1) =~= seq![46u8]);
                            assert(spec_match_at(h, dot@, j));
                        }
                    }
                    let suffix = vstd::slice::slice_subrange(hl.as_slice(), i + 1, n);
                    proof {
                        assert(suffix@ =~= h.skip(i + 1));
                    }
                    if set_contains(&self.wildcard_domains, suffix) {
                        return true;
                    }
                    cur = i + 1;
                },
                None => {
                    proof {
                        assert forall|i: int| 0 <= i < h.len() && h[i] == 46 implies !spec_has(
                            self.wildcard_domains@,
                            #[trigger] h.skip(i + 1),
                        ) by {
                            if i >= cur {
                                assert(h.subrange(i, i + 1) =~= seq![46u8]);
                                assert(spec_match_at(h, dot@, i));
                            }
                        }
                    }
                    return false;
                },
            }
        }
    }

    /// Decide whether to apply the bypass to a hostname, according to
    /// the mode.
    pub fn check(&self, hostname: &str) -> (r: FilterResult)
        ensures
            r == spec_filter_check(*self, spec_lower_bytes(hostname.spec_bytes())),
    {
        match self.mode {
            FilterMode::Disabled => FilterResult::ApplyBypass,
            FilterMode::Whitelist => {
                if self.matches(hostname) {
                    FilterResult::SkipBypass
                } else {
                    FilterResult::ApplyBypass
                }
            },
            FilterMode::Blacklist => {
                if self.matches(hostname) {
                    FilterResult::ApplyBypass
                } else {
                    FilterResult::SkipBypass
                }
            },
        }
    }

    /// Add the domains listed in a text, one per line; lines that are
    /// empty or comments after trimming are ignored.  Returns how many
    /// lines were taken; afterwards every line of the text is loaded
    /// into its set, wildcard or exact.
    #[verifier::loop_isolation(false)]
    pub fn add_domains_from_text(&mut self, text: &str) -> (r: usize)
        ensures
            final(self).mode == old(self).mode,
            r == spec_taken_count(text.spec_bytes(), 0, 0),
            forall|i: int, j: int|
                spec_is_line(text.spec_bytes(), i, j) ==> spec_entry_loaded(
                    *final(self),
                    #[trigger] text.spec_bytes().subrange(i, j),
                ),
    {
        let bytes = text.as_bytes();
        let ghost b = text.spec_bytes();
        let n = bytes.len();
        let mut count: usize = 0;
        let mut start: usize = 0;
        let mut i: usize = 0;
        while i < n
            invariant
                count <= start,
                start <= i,
                i <= n,
                start == 0 || b[start - 1] == 10,
                forall|k: int| start <= k < i ==> b[k] != 10,
                self.mode == old(self).mode,
                count + spec_taken_count(b, start as int, i as int) == spec_taken_count(b, 0, 0),
                forall|i0: int, j0: int|
                    spec_is_line(b, i0, j0) && j0 < i ==> spec_entry_loaded(
                        *self,
                        #[trigger] b.subrange(i0, j0),
                    ),
            decreases n - i,
        {
            if bytes[i] == 10 {
                proof {
                    lemma_only_line_ending_here(b, start as int, i as int);
                }
                if i > start {
                    let line = vstd::slice::slice_subrange(bytes, start, i);
                    let ghost before = *self;
                    let taken = self.add_line(line);
                    proof {
                        assert(spec_is_line(b, start as int, i as int));
                        assert forall|i0: int, j0: int|
                            spec_is_line(b, i0, j0) && j0 < i + 1 implies spec_entry_loaded(
                            *self,
                            #[trigger] b.subrange(i0, j0),
                        ) by {
                            if j0 < i {
                                lemma_loaded_preserved(
                                    before,
                                    *self,
                                    line@,
                                    b.subrange(i0, j0),
                                );
                            } else {
                                assert(i0 == start);
                            }
                        }
                    }
                    if taken {
                        count = count + 1;
                    }
                }
                start = i + 1;
            }
            i = i + 1;
        }
        proof {
            lemma_only_line_ending_here(b, start as int, n as int);
        }
        if n > start {
            let line = vstd::slice::slice_subrange(bytes, start, n);
            let ghost before = *self;
            let taken = self.add_line(line);
            proof {
                assert(spec_is_line(b, start as int, n as int));
                assert forall|i0: int, j0: int| spec_is_line(b, i0, j0) implies spec_entry_loaded(
                    *self,
                    #[trigger] b.subrange(i0, j0),
                ) by {
                    if j0 < n {
                        lemma_loaded_preserved(before, *self, line@, b.subrange(i0, j0));
                    } else {
                        assert(i0 == start);
                    }
                }
            }
            if taken {
                count = count + 1;
            }
        }
        count
    }

    /// Add one line if it is neither empty nor a comment after
    /// trimming; report whether it was taken.
    fn add_line(&mut self, line: &[u8]) -> (r: bool)
        ensures
            final(self).mode == old(self).mode,
            r == spec_line_taken(line@),
            spec_entry_loaded(*final(self), line@),
            ({
                let c = spec_clean_domain(line@);
                if c.len() == 0 || c[0] == 35 {
                    *final(self) == *old(self)
                } else if c.len() >= 2 && c[0] == 42 && c[1] == 46 {
                    final(self).exact_domains == old(self).exact_domains && forall|y: Seq<u8>|
                        #[trigger] spec_has(final(self).wildcard_domains@, y) == (spec_has(
                            old(self).wildcard_domains@,
                            y,
                        ) || y == c.skip(2))
                } else {
                    final(self).wildcard_domains == old(self).wildcard_domains && forall|
                        y: Seq<u8>,
                    |
                        #[trigger] spec_has(final(self).exact_domains@, y) == (spec_has(
                            old(self).exact_domains@,
                            y,
                        ) || y == c)
                }
            }),
    {
        let cleaned = clean_bytes(line);
        if cleaned.len() == 0 {
            return false;
        }
        let b0 = cleaned[0];
        if b0 == 35 {
            return false;
        }
        if cleaned.len() >= 2 && b0 == 42 && cleaned[1] == 46 {
            let stripped = vstd::slice::slice_to_vec(
                vstd::slice::slice_subrange(cleaned.as_slice(), 2, cleaned.len()),
            );
            proof {
                assert(stripped@ =~= spec_clean_domain(line@).skip(2));
            }
            set_insert(&mut self.wildcard_domains, stripped);
            proof {
                assert(spec_has(
                    self.wildcard_domains@,
                    spec_clean_domain(line@).skip(2),
                ));
            }
        } else {
            set_insert(&mut self.exact_domains, cleaned);
            proof {
                assert(spec_has(self.exact_domains@, spec_clean_domain(line@)));
            }
        }
        true
    }

    /// Total number of entries.
    pub fn len(&self) -> (r: usize)
        requires
            self.exact_domains@.len() + self.wildcard_domains@.len() <= usize::MAX,
        ensures
            r == self.exact_domains@.len() + self.wildcard_domains@.len(),
    {
        self.exact_domains.len() + self.wildcard_domains.len()
    }

    /// Whether the filter holds no entries.
    pub fn is_empty(&self) -> (r: bool)
        ensures
            r == (self.exact_domains@.len() == 0 && self.wildcard_domains@.len() == 0),
    {
        self.exact_domains.is_empty() && self.wildcard_domains.is_empty()
    }
}

/// The only line of `b` that can end exactly at `i` starts at `start`,
/// when `start` is a line beginning and `[start, i)` is break-free.
proof fn lemma_only_line_ending_here(b: Seq<u8>, start: int, i: int)
    requires
        0 <= start <= i <= b.len(),
        start == 0 || b[start - 1] == 10,
        forall|k: int| start <= k < i ==> b[k] != 10,
    ensures
        forall|i0: int| spec_is_line(b, i0, i) ==> i0 == start,
{
    assert forall|i0: int| spec_is_line(b, i0, i) implies i0 == start by {
        if i0 < start {
            assert(b[start - 1] == 10);
            assert(b[start - 1] != 10);
        } else if i0 > start {
            assert(b[i0 - 1] == 10);
            assert(b[i0 - 1] != 10);
        }
    }
}

/// Loading one entry keeps every previously loaded entry loaded.
proof fn lemma_loaded_preserved(
    f0: DomainFilter,
    f1: DomainFilter,
    raw_added: Seq<u8>,
    raw_old: Seq<u8>,
)
    requires
        spec_entry_loaded(f0, raw_old),
        ({
            let c = spec_clean_domain(raw_added);
            if c.len() == 0 || c[0] == 35 {
                f1 == f0
            } else if c.len() >= 2 && c[0] == 42 && c[1] == 46 {
                f1.exact_domains == f0.exact_domains && forall|y: Seq<u8>| #[trigger]
                    spec_has(f1.wildcard_domains@, y) == (spec_has(f0.wildcard_domains@, y) || y
                        == c.skip(2))
            } else {
                f1.wildcard_domains == f0.wildcard_domains && forall|y: Seq<u8>| #[trigger]
                    spec_has(f1.exact_domains@, y) == (spec_has(f0.exact_domains@, y) || y == c)
            }
        }),
    ensures
        spec_entry_loaded(f1, raw_old),
{
    let co = spec_clean_domain(raw_old);
    let ca = spec_clean_domain(raw_added);
    if co.len() == 0 || co[0] == 35 {
    } else if co.len() >= 2 && co[0] == 42 && co[1] == 46 {
        assert(spec_has(f0.wildcard_domains@, co.skip(2)));
        if ca.len() == 0 || ca[0] == 35 {
        } else if ca.len() >= 2 && ca[0] == 42 && ca[1] == 46 {
            assert(spec_has(f1.wildcard_domains@, co.skip(2)));
        } else {
            assert(f1.wildcard_domains == f0.wildcard_domains);
        }
    } else {
        assert(spec_has(f0.exact_domains@, co));
        if ca.len() == 0 || ca[0] == 35 {
        } else if ca.len() >= 2 && ca[0] == 42 && ca[1] == 46 {
            assert(f1.exact_domains == f0.exact_domains);
        } else {
            assert(spec_has(f1.exact_domains@, co));
        }
    }
}

/// Trim and lower-case a domain string.
fn clean_domain(domain: &str) -> (r: Vec<u8>)
    ensures
        r@ == spec_clean_domain(domain.spec_bytes()),
{
    clean_bytes(domain.as_bytes())
}

/// Trim and lower-case domain bytes.
fn clean_bytes(b: &[u8]) -> (r: Vec<u8>)
    ensures
        r@ == spec_clean_domain(b@),
{
    let trimmed = trim_bytes(b);
    lower_bytes(trimmed.as_slice())
}

/// Strip ASCII whitespace from both ends.
#[verifier::loop_isolation(false)]
fn trim_bytes(b: &[u8]) -> (r: Vec<u8>)
    ensures
        r@ == spec_trim(b@),
{
    let n = b.len();
    proof {
        assert(b@.skip(0) =~= b@);
    }
    let mut start: usize = 0;
    while start < n && is_ws(b[start])
        invariant
            start <= n,
            spec_trim_front(b@) == spec_trim_front(b@.skip(start as int)),
        decreases n - start,
    {
        proof {
            assert(b@.skip(start as int)[0] == b@[start as int]);
            assert(b@.skip(start as int).skip(1) =~= b@.skip(start + 1));
        }
        start = start + 1;
    }
    proof {
        if start < n {
            assert(b@.skip(start as int)[0] == b@[start as int]);
        }
        assert(spec_trim_front(b@) =~= b@.skip(start as int));
    }
    proof {
        assert(b@.skip(start as int).take(n - start) =~= b@.skip(start as int));
    }
    let mut end: usize = n;
    while end > start && is_ws(b[end - 1])
        invariant
            start <= end <= n,
            spec_trim_back(b@.skip(start as int)) == spec_trim_back(
                b@.skip(start as int).take(end - start),
            ),
        decreases end,
    {
        proof {
            let cur = b@.skip(start as int).take(end - start);
            assert(cur[cur.len() - 1] == b@[end - 1]);
            assert(cur.take(cur.len() - 1) =~= b@.skip(start as int).take(end - 1 - start));
        }
        end = end - 1;
    }
    proof {
        let cur = b@.skip(start as int).take(end - start);
        if end > start {
            assert(cur[cur.len() - 1] == b@[end - 1]);
        }
        assert(spec_trim_back(cur) == cur);
        assert(spec_trim(b@) =~= cur);
    }
    let r = vstd::slice::slice_to_vec(vstd::slice::slice_subrange(b, start, end));
    proof {
        assert(r@ =~= b@.skip(start as int).take(end - start));
    }
    r
}

/// Whether the byte is ASCII whitespace.
fn is_ws(b: u8) -> (r: bool)
    ensures
        r == spec_is_ws(b),
{
    b == 32 || b == 9 || b == 10 || b == 13
}

/// A wildcard entry covers every more-specific subdomain: when the
/// wildcard set holds `h`, any hostname formed by prefixing a label to
/// `h` with a dot still matches the filter.
pub proof fn lemma_wildcard_matches_subdomain(f: DomainFilter, h: Seq<u8>, prefix: Seq<u8>)
    requires
        spec_has(f.wildcard_domains@, h),
    ensures
        spec_filter_matches(f, prefix + seq![46u8] + h),
{
    let full = prefix + seq![46u8] + h;
    let i = prefix.len() as int;
    assert(full[i] == 46);
    assert(full.skip(i + 1) =~= h);
}

/// Adding entries never removes a match: a filter whose sets contain
/// every entry of another matches everything the other matches.
pub proof fn lemma_filter_monotonic(f1: DomainFilter, f2: DomainFilter, h: Seq<u8>)
    requires
        spec_filter_matches(f1, h),
        forall|y: Seq<u8>| spec_has(f1.exact_domains@, y) ==> #[trigger] spec_has(
            f2.exact_domains@,
            y,
        ),
        forall|y: Seq<u8>| spec_has(f1.wildcard_domains@, y) ==> #[trigger] spec_has(
            f2.wildcard_domains@,
            y,
        ),
    ensures
        spec_filter_matches(f2, h),
{
    if spec_has(f1.exact_domains@, h) {
        assert(spec_has(f2.exact_domains@, h));
    } else if spec_has(f1.wildcard_domains@, h) {
        assert(spec_has(f2.wildcard_domains@, h));
    } else {
        let i = choose|i: int|
            0 <= i < h.len() && h[i] == 46 && spec_has(f1.wildcard_domains@, h.skip(i + 1));
        assert(spec_has(f2.wildcard_domains@, h.skip(i + 1)));
    }
}

} // verus!

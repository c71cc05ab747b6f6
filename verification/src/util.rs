//! Byte-level helpers shared by the packet model, the domain filter and
//! the filter-expression builder: big-endian field access, ASCII case
//! mapping, substring search and decimal rendering.

use vstd::prelude::*;
use vstd::string::*;

verus! {

/// Whether every byte of `s` is ASCII.
pub open spec fn spec_all_ascii(s: Seq<u8>) -> bool {
    forall|i: int| 0 <= i < s.len() ==> s[i] < 128
}

/// The characters that a sequence of ASCII bytes denotes.
pub open spec fn spec_ascii_chars(s: Seq<u8>) -> Seq<char> {
    Seq::new(s.len(), |i: int| s[i] as char)
}

/// Relies on `String::from_utf8` of std: a buffer of ASCII bytes decodes
/// to the string whose characters are exactly those bytes.
#[verifier::external_body]
pub fn string_from_ascii(bytes: &[u8]) -> (r: String)
    requires
        spec_all_ascii(bytes@),
    ensures
        r@ == spec_ascii_chars(bytes@),
{
    match String::from_utf8(bytes.to_vec()) {
        Ok(s) => s,
        Err(_) => String::new(),
    }
}

/// The UTF-8 encoding of the characters of an ASCII byte string is
/// the byte string itself.
pub proof fn lemma_ascii_chars_bytes(b: Seq<u8>)
    requires
        spec_all_ascii(b),
    ensures
        vstd::utf8::encode_utf8(spec_ascii_chars(b)) =~= b,
        vstd::utf8::is_ascii_chars(spec_ascii_chars(b)),
{
    let cs = spec_ascii_chars(b);
    assert(vstd::utf8::is_ascii_chars(cs)) by {
        assert forall|i: int| 0 <= i < cs.len() implies '\0' <= #[trigger] cs[i] <= '\u{7f}' by {
            assert(cs[i] == b[i] as char);
        }
    }
    vstd::utf8::is_ascii_chars_encode_utf8(cs);
}

/// Whether the bytes of two slices are equal.
pub fn bytes_eq(a: &[u8], b: &[u8]) -> (r: bool)
    ensures
        r == (a@ == b@),
{
    if a.len() != b.len() {
        return false;
    }
    let r = match_at(a, b, 0);
    proof {
        if spec_match_at(a@, b@, 0) {
            assert(a@.subrange(0, b@.len() as int) =~= a@);
        } else {
            assert(a@ != b@) by {
                if a@ == b@ {
                    assert(a@.subrange(0, b@.len() as int) =~= b@);
                }
            }
        }
    }
    r
}

/// The 16-bit big-endian value stored at `i` in `d`.
pub open spec fn spec_be16(d: Seq<u8>, i: int) -> int
    recommends
        0 <= i && i + 2 <= d.len(),
{
    d[i] * 256 + d[i + 1]
}

/// The 32-bit big-endian value stored at `i` in `d`.
pub open spec fn spec_be32(d: Seq<u8>, i: int) -> int
    recommends
        0 <= i && i + 4 <= d.len(),
{
    d[i] * 0x1000000 + d[i + 1] * 0x10000 + d[i + 2] * 0x100 + d[i + 3]
}

/// `d` with the 16-bit big-endian encoding of `v` written at `i`.
pub open spec fn spec_set_be16(d: Seq<u8>, i: int, v: u16) -> Seq<u8>
    recommends
        0 <= i && i + 2 <= d.len(),
{
    d.update(i, (v / 256) as u8).update(i + 1, (v % 256) as u8)
}

/// `d` with the 32-bit big-endian encoding of `v` written at `i`.
pub open spec fn spec_set_be32(d: Seq<u8>, i: int, v: u32) -> Seq<u8>
    recommends
        0 <= i && i + 4 <= d.len(),
{
    d.update(i, (v / 0x1000000) as u8).update(i + 1, ((v / 0x10000) % 0x100) as u8).update(
        i + 2,
        ((v / 0x100) % 0x100) as u8,
    ).update(i + 3, (v % 0x100) as u8)
}

/// Read the 16-bit big-endian value at `i`.
pub fn read_be16(d: &Vec<u8>, i: usize) -> (r: u16)
    requires
        i + 2 <= d@.len(),
    ensures
        r == spec_be16(d@, i as int),
{
    let n: usize = d.len();
    assert(i + 2 <= n);
    (d[i] as u16) * 256 + (d[i + 1] as u16)
}

/// Read the 32-bit big-endian value at `i`.
pub fn read_be32(d: &Vec<u8>, i: usize) -> (r: u32)
    requires
        i + 4 <= d@.len(),
    ensures
        r == spec_be32(d@, i as int),
{
    let n: usize = d.len();
    assert(i + 4 <= n);
    (d[i] as u32) * 0x1000000 + (d[i + 1] as u32) * 0x10000 + (d[i + 2] as u32) * 0x100 + (d[i
        + 3] as u32)
}

/// Write the 16-bit big-endian encoding of `v` at `i`.
pub fn write_be16(d: &mut Vec<u8>, i: usize, v: u16)
    requires
        i + 2 <= old(d)@.len(),
    ensures
        final(d)@ == spec_set_be16(old(d)@, i as int, v),
        final(d)@.len() == old(d)@.len(),
        spec_be16(final(d)@, i as int) == v,
{
    let n: usize = d.len();
    assert(i + 2 <= n);
    d.set(i, (v / 256) as u8);
    d.set(i + 1, (v % 256) as u8);
}

/// Write the 32-bit big-endian encoding of `v` at `i`.
pub fn write_be32(d: &mut Vec<u8>, i: usize, v: u32)
    requires
        i + 4 <= old(d)@.len(),
    ensures
        final(d)@ == spec_set_be32(old(d)@, i as int, v),
        final(d)@.len() == old(d)@.len(),
        spec_be32(final(d)@, i as int) == v,
{
    let n: usize = d.len();
    assert(i + 4 <= n);
    d.set(i, (v / 0x1000000) as u8);
    d.set(i + 1, ((v / 0x10000) % 0x100) as u8);
    d.set(i + 2, ((v / 0x100) % 0x100) as u8);
    d.set(i + 3, (v % 0x100) as u8);
    proof {
        let dd = final(d)@;
        assert(spec_be32(dd, i as int) == (v / 0x1000000) * 0x1000000 + ((v / 0x10000) % 0x100)
            * 0x10000 + ((v / 0x100) % 0x100) * 0x100 + (v % 0x100));
        assert((v / 0x1000000) * 0x1000000 + ((v / 0x10000) % 0x100) * 0x10000 + ((v / 0x100)
            % 0x100) * 0x100 + (v % 0x100) == v) by (bit_vector);
    }
}

/// An upper-case ASCII letter mapped to lower case; anything else kept.
pub open spec fn spec_lower_byte(b: u8) -> u8 {
    if 65 <= b <= 90 {
        (b + 32) as u8
    } else {
        b
    }
}

/// `s` with every upper-case ASCII letter mapped to lower case.
pub open spec fn spec_lower_bytes(s: Seq<u8>) -> Seq<u8> {
    s.map_values(|b: u8| spec_lower_byte(b))
}

/// Lower-case a byte string in ASCII.
pub fn lower_bytes(s: &[u8]) -> (r: Vec<u8>)
    ensures
        r@ == spec_lower_bytes(s@),
{
    let mut r: Vec<u8> = Vec::new();
    let mut i: usize = 0;
    while i < s.len()
        invariant
            i <= s@.len(),
            r@ == spec_lower_bytes(s@.take(i as int)),
        decreases s@.len() - i,
    {
        let b = s[i];
        if 65 <= b && b <= 90 {
            r.push(b + 32);
        } else {
            r.push(b);
        }
        proof {
            assert(s@.take(i + 1).map_values(|b: u8| spec_lower_byte(b)) =~= s@.take(
                i as int,
            ).map_values(|b: u8| spec_lower_byte(b)).push(spec_lower_byte(s@[i as int])));
        }
        i = i + 1;
    }
    proof {
        assert(s@.take(s@.len() as int) =~= s@);
    }
    r
}

/// Whether `needle` occurs in `hay` starting at `i`.
pub open spec fn spec_match_at(hay: Seq<u8>, needle: Seq<u8>, i: int) -> bool {
    0 <= i && i + needle.len() <= hay.len() && hay.subrange(i, i + needle.len()) =~= needle
}

/// Whether `needle` occurs in `hay` at `i`, by comparison.
pub fn match_at(hay: &[u8], needle: &[u8], i: usize) -> (r: bool)
    requires
        i + needle@.len() <= hay@.len(),
    ensures
        r == spec_match_at(hay@, needle@, i as int),
{
    let hn: usize = hay.len();
    let nn: usize = needle.len();
    let mut j: usize = 0;
    while j < nn
        invariant
            j <= nn,
            nn == needle@.len(),
            hn == hay@.len(),
            i + nn <= hn,
            forall|k: int| 0 <= k < j ==> hay@[i + k] == needle@[k],
        decreases nn - j,
    {
        if hay[i + j] != needle[j] {
            proof {
                assert(hay@.subrange(i as int, i + needle@.len())[j as int] != needle@[j as int]);
            }
            return false;
        }
        j = j + 1;
    }
    proof {
        assert(hay@.subrange(i as int, i + needle@.len()) =~= needle@);
    }
    true
}

/// The first position at or after `from` where `needle` occurs in `hay`,
/// if any.
pub fn find_seq_from(hay: &[u8], needle: &[u8], from: usize) -> (r: Option<usize>)
    ensures
        match r {
            Some(i) => from <= i && spec_match_at(hay@, needle@, i as int) && forall|k: int|
                from <= k < i ==> !spec_match_at(hay@, needle@, k),
            None => forall|k: int| from <= k ==> !spec_match_at(hay@, needle@, k),
        },
{
    if needle.len() > hay.len() {
        return None;
    }
    if needle.len() == 0 {
        if from <= hay.len() {
            proof {
                assert(hay@.subrange(from as int, from as int) =~= needle@);
            }
            return Some(from);
        }
        return None;
    }
    let hl: usize = hay.len();
    let last: usize = hl - needle.len();
    let mut i: usize = from;
    while i <= last
        invariant
            1 <= needle@.len() <= hay@.len(),
            hl == hay@.len(),
            last == hay@.len() - needle@.len(),
            from <= i,
            forall|k: int| from <= k < i ==> !spec_match_at(hay@, needle@, k),
        decreases hay@.len() - i,
    {
        if match_at(hay, needle, i) {
            return Some(i);
        }
        i = i + 1;
    }
    None
}

/// The first position at or after `from` where `needle` occurs in
/// `hay`, as a recursive scan.
pub open spec fn spec_find_seq(hay: Seq<u8>, needle: Seq<u8>, from: int) -> Option<int>
    recommends
        0 <= from,
    decreases hay.len() - from,
{
    if from + needle.len() > hay.len() {
        None
    } else if spec_match_at(hay, needle, from) {
        Some(from)
    } else {
        spec_find_seq(hay, needle, from + 1)
    }
}

/// A first match at `i` with no match before it is what the scan finds.
pub proof fn lemma_find_seq_some(hay: Seq<u8>, needle: Seq<u8>, from: int, i: int)
    requires
        0 <= from <= i,
        spec_match_at(hay, needle, i),
        forall|k: int| from <= k < i ==> !spec_match_at(hay, needle, k),
    ensures
        spec_find_seq(hay, needle, from) == Some(i),
    decreases i - from,
{
    if from < i {
        lemma_find_seq_some(hay, needle, from + 1, i);
    }
}

/// With no match anywhere at or after `from`, the scan finds nothing.
pub proof fn lemma_find_seq_none(hay: Seq<u8>, needle: Seq<u8>, from: int)
    requires
        0 <= from,
        forall|k: int| from <= k ==> !spec_match_at(hay, needle, k),
    ensures
        spec_find_seq(hay, needle, from) is None,
    decreases hay.len() - from,
{
    if from + needle.len() <= hay.len() {
        lemma_find_seq_none(hay, needle, from + 1);
    }
}

/// What a successful scan guarantees: the position is in range and
/// the needle matches there.
pub proof fn lemma_find_seq_bounds(hay: Seq<u8>, needle: Seq<u8>, from: int)
    requires
        0 <= from,
        spec_find_seq(hay, needle, from) is Some,
    ensures
        ({
            let i = spec_find_seq(hay, needle, from)->0;
            from <= i && i + needle.len() <= hay.len() && spec_match_at(hay, needle, i)
        }),
    decreases hay.len() - from,
{
    if from + needle.len() > hay.len() {
    } else if spec_match_at(hay, needle, from) {
    } else {
        lemma_find_seq_bounds(hay, needle, from + 1);
    }
}

/// `s` with every leading repetition of `p` removed.
pub open spec fn spec_strip_rep(s: Seq<char>, p: Seq<char>) -> Seq<char>
    decreases s.len(),
{
    if p.len() > 0 && s.len() >= p.len() && s.take(p.len() as int) == p {
        spec_strip_rep(s.skip(p.len() as int), p)
    } else {
        s
    }
}

/// The first position at or after `from` where the character occurs.
pub open spec fn spec_find_char(s: Seq<char>, c: char, from: int) -> Option<int>
    decreases s.len() - from,
{
    if from < 0 || from >= s.len() {
        None
    } else if s[from] == c {
        Some(from)
    } else {
        spec_find_char(s, c, from + 1)
    }
}

/// What `extract_host_port` returns: the URL with any scheme prefix
/// stripped and any path cut off, with ":443" appended when no port
/// is present.
pub open spec fn spec_extract_host_port(u: Seq<char>) -> Seq<char> {
    let u1 = spec_strip_rep(spec_strip_rep(u, "https://"@), "http://"@);
    let u2 = match spec_find_char(u1, '/', 0) {
        Option::Some(i) => u1.take(i),
        Option::None => u1,
    };
    if spec_find_char(u2, ':', 0) is Some {
        u2
    } else {
        u2 + ":443"@
    }
}

/// Whether the characters of `p` occur in `s` at position `from`.
fn chars_prefix_at(s: &str, from: usize, p: &str, n: usize) -> (r: bool)
    requires
        n == s@.len(),
        from <= n,
    ensures
        r == (from + p@.len() <= s@.len() && s@.subrange(from as int, from + p@.len()) == p@),
{
    let plen = p.unicode_len();
    if plen > n || from > n - plen {
        return false;
    }
    let mut k: usize = 0;
    while k < plen
        invariant
            k <= plen,
            plen == p@.len(),
            n == s@.len(),
            from + plen <= n,
            forall|j: int| 0 <= j < k ==> s@[from + j] == p@[j],
        decreases plen - k,
    {
        if s.get_char(from + k) != p.get_char(k) {
            proof {
                assert(s@.subrange(from as int, from + p@.len())[k as int] != p@[k as int]);
            }
            return false;
        }
        k = k + 1;
    }
    proof {
        assert(s@.subrange(from as int, from + p@.len()) =~= p@);
    }
    true
}

/// The first position in `[from, upto)` where the character occurs.
#[verifier::loop_isolation(false)]
fn find_char_from(s: &str, c: char, from: usize, upto: usize) -> (r: Option<usize>)
    requires
        upto <= s@.len(),
        from <= upto,
    ensures
        match r {
            Some(i) => from <= i < upto && s@[i as int] == c && forall|k: int|
                from <= k < i ==> s@[k] != c,
            None => forall|k: int| from <= k < upto ==> s@[k] != c,
        },
{
    let mut i: usize = from;
    while i < upto
        invariant
            from <= i <= upto,
            forall|k: int| from <= k < i ==> s@[k] != c,
        decreases upto - i,
    {
        if s.get_char(i) == c {
            return Some(i);
        }
        i = i + 1;
    }
    None
}

/// Reduce a URL to its host and port: strip the scheme, cut the path,
/// and default the port to 443.
#[verifier::loop_isolation(false)]
pub fn extract_host_port(url: &str) -> (r: Result<String, crate::error::Error>)
    ensures
        r is Ok,
        r matches Ok(s) ==> s@ == spec_extract_host_port(url@),
{
    let n = url.unicode_len();
    let https = "https://";
    let http = "http://";
    let https_len = https.unicode_len();
    let http_len = http.unicode_len();
    let mut start: usize = 0;
    proof {
        assert(url@.skip(0) =~= url@);
    }
    let mut matched = chars_prefix_at(url, start, https, n);
    while matched
        invariant
            start <= n,
            matched == (start + https@.len() <= url@.len() && url@.subrange(
                start as int,
                start + https@.len(),
            ) == https@),
            spec_strip_rep(url@, https@) == spec_strip_rep(url@.skip(start as int), https@),
        decreases n - start,
    {
        proof {
            assert(url@.skip(start as int).take(https@.len() as int) =~= url@.subrange(
                start as int,
                start + https@.len(),
            ));
            assert(url@.skip(start as int).skip(https@.len() as int) =~= url@.skip(
                start + https@.len(),
            ));
            assert(https@.len() > 0) by {
                reveal_strlit("https://");
            }
        }
        start = start + https_len;
        matched = chars_prefix_at(url, start, https, n);
    }
    proof {
        assert(!(url@.skip(start as int).len() >= https@.len() && url@.skip(start as int).take(
            https@.len() as int,
        ) == https@)) by {
            if url@.skip(start as int).len() >= https@.len() {
                assert(url@.skip(start as int).take(https@.len() as int) =~= url@.subrange(
                    start as int,
                    start + https@.len(),
                ));
            }
        }
        assert(spec_strip_rep(url@, https@) == url@.skip(start as int));
    }
    let ghost after_https = url@.skip(start as int);
    let mut matched2 = chars_prefix_at(url, start, http, n);
    while matched2
        invariant
            start <= n,
            matched2 == (start + http@.len() <= url@.len() && url@.subrange(
                start as int,
                start + http@.len(),
            ) == http@),
            spec_strip_rep(after_https, http@) == spec_strip_rep(
                url@.skip(start as int),
                http@,
            ),
        decreases n - start,
    {
        proof {
            assert(url@.skip(start as int).take(http@.len() as int) =~= url@.subrange(
                start as int,
                start + http@.len(),
            ));
            assert(url@.skip(start as int).skip(http@.len() as int) =~= url@.skip(
                start + http@.len(),
            ));
            assert(http@.len() > 0) by {
                reveal_strlit("http://");
            }
        }
        start = start + http_len;
        matched2 = chars_prefix_at(url, start, http, n);
    }
    proof {
        assert(!(url@.skip(start as int).len() >= http@.len() && url@.skip(start as int).take(
            http@.len() as int,
        ) == http@)) by {
            if url@.skip(start as int).len() >= http@.len() {
                assert(url@.skip(start as int).take(http@.len() as int) =~= url@.subrange(
                    start as int,
                    start + http@.len(),
                ));
            }
        }
        assert(spec_strip_rep(after_https, http@) == url@.skip(start as int));
    }
    let ghost u1 = url@.skip(start as int);
    let cut = match find_char_from(url, '/', start, n) {
        Some(i) => {
            proof {
                lemma_find_char_shift(url@, '/', start as int, i as int);
            }
            i
        },
        None => {
            proof {
                lemma_find_char_shift_none(url@, '/', start as int);
            }
            n
        },
    };
    proof {
        assert(url@.subrange(start as int, cut as int) =~= (match spec_find_char(u1, '/', 0) {
            Option::Some(i) => u1.take(i),
            Option::None => u1,
        }));
    }
    let host = url.substring_char(start, cut);
    let ghost u2 = url@.subrange(start as int, cut as int);
    let colon = match find_char_from(url, ':', start, cut) {
        Some(i) => {
            proof {
                lemma_find_char_shift(url@, ':', start as int, i as int);
                lemma_find_char_within(url@, ':', start as int, cut as int, i as int);
            }
            true
        },
        None => {
            proof {
                lemma_find_char_shift_none_bounded(url@, ':', start as int, cut as int);
            }
            false
        },
    };
    if colon {
        Ok(host.to_owned())
    } else {
        let mut s = host.to_owned();
        s.append(":443");
        Ok(s)
    }
}

/// A found character is what the suffix scan finds, shifted.
proof fn lemma_find_char_shift(s: Seq<char>, c: char, start: int, i: int)
    requires
        0 <= start <= i < s.len(),
        s[i] == c,
        forall|k: int| start <= k < i ==> s[k] != c,
    ensures
        spec_find_char(s.skip(start), c, 0) == Some(i - start),
        spec_find_char(s.subrange(start, i), c, 0) is None,
    decreases s.len() - start,
{
    lemma_find_char_first(s.skip(start), c, 0, i - start);
    lemma_find_char_absent(s.subrange(start, i), c, 0);
}

/// No character at or after `start` means the suffix scan fails.
proof fn lemma_find_char_shift_none(s: Seq<char>, c: char, start: int)
    requires
        0 <= start <= s.len(),
        forall|k: int| start <= k < s.len() ==> s[k] != c,
    ensures
        spec_find_char(s.skip(start), c, 0) is None,
{
    lemma_find_char_absent(s.skip(start), c, 0);
}

/// A scan over a range with no occurrence fails on the subrange.
proof fn lemma_find_char_shift_none_bounded(s: Seq<char>, c: char, start: int, cut: int)
    requires
        0 <= start <= cut <= s.len(),
        forall|k: int| start <= k < cut ==> s[k] != c,
    ensures
        spec_find_char(s.subrange(start, cut), c, 0) is None,
{
    lemma_find_char_absent(s.subrange(start, cut), c, 0);
}

/// An occurrence inside the cut range is found on the subrange too.
proof fn lemma_find_char_within(s: Seq<char>, c: char, start: int, cut: int, i: int)
    requires
        0 <= start <= i < cut <= s.len(),
        s[i] == c,
    ensures
        spec_find_char(s.subrange(start, cut), c, 0) is Some,
    decreases cut - start,
{
    lemma_find_char_some(s.subrange(start, cut), c, 0, i - start);
}

/// A scan finds the first occurrence.
proof fn lemma_find_char_first(s: Seq<char>, c: char, from: int, i: int)
    requires
        0 <= from <= i < s.len(),
        s[i] == c,
        forall|k: int| from <= k < i ==> s[k] != c,
    ensures
        spec_find_char(s, c, from) == Some(i),
    decreases i - from,
{
    if from < i {
        lemma_find_char_first(s, c, from + 1, i);
    }
}

/// A scan starting before an occurrence succeeds.
proof fn lemma_find_char_some(s: Seq<char>, c: char, from: int, i: int)
    requires
        0 <= from <= i < s.len(),
        s[i] == c,
    ensures
        spec_find_char(s, c, from) is Some,
    decreases i - from,
{
    if from < i && s[from] != c {
        lemma_find_char_some(s, c, from + 1, i);
    }
}

/// With no occurrence anywhere, the scan fails.
proof fn lemma_find_char_absent(s: Seq<char>, c: char, from: int)
    requires
        0 <= from,
        forall|k: int| from <= k < s.len() ==> s[k] != c,
    ensures
        spec_find_char(s, c, from) is None,
    decreases s.len() - from,
{
    if from < s.len() {
        lemma_find_char_absent(s, c, from + 1);
    }
}

/// The decimal digit characters of `n`, most significant first.
pub open spec fn spec_decimal(n: int) -> Seq<u8>
    recommends
        n >= 0,
    decreases n,
{
    if n <= 0 {
        seq![48u8]
    } else if n < 10 {
        seq![(48 + n) as u8]
    } else {
        spec_decimal(n / 10).push((48 + n % 10) as u8)
    }
}

/// Render `n` in decimal ASCII.
pub fn decimal_bytes(n: u64) -> (r: Vec<u8>)
    ensures
        r@ == spec_decimal(n as int),
{
    if n == 0 {
        let mut r: Vec<u8> = Vec::new();
        r.push(48);
        proof {
            assert(r@ =~= spec_decimal(0));
        }
        return r;
    }
    let mut digits: Vec<u8> = Vec::new();
    let mut m: u64 = n;
    while m > 0
        invariant
            m <= n,
            n > 0,
            m > 0 ==> spec_decimal(n as int) == spec_decimal(m as int) + digits@,
            m == 0 ==> n >= 1 && spec_decimal(n as int) == digits@,
        decreases m,
    {
        let ghost prev = m;
        let ghost prev_digits = digits@;
        digits.insert(0, 48 + (m % 10) as u8);
        m = m / 10;
        proof {
            if m > 0 {
                assert(spec_decimal(prev as int) == spec_decimal(prev as int / 10).push(
                    (48 + prev as int % 10) as u8,
                ));
                assert(spec_decimal(prev as int / 10).push((48 + prev as int % 10) as u8)
                    + prev_digits =~= spec_decimal(prev as int / 10) + (seq![
                    (48 + prev as int % 10) as u8,
                ] + prev_digits));
                assert(digits@ =~= seq![(48 + prev as int % 10) as u8] + prev_digits);
            } else {
                if prev < 10 {
                    assert(spec_decimal(prev as int) == seq![(48 + prev as int) as u8]);
                    assert(digits@ =~= seq![(48 + prev as int % 10) as u8] + prev_digits);
                    assert(seq![(48 + prev as int) as u8] + prev_digits =~= digits@);
                } else {
                    assert(false);
                }
            }
        }
    }
    digits
}

/// Every byte of a decimal rendering is an ASCII digit.
pub proof fn lemma_decimal_ascii(n: int)
    requires
        n >= 0,
    ensures
        spec_all_ascii(spec_decimal(n)),
        forall|i: int| 0 <= i < spec_decimal(n).len() ==> 48 <= #[trigger] spec_decimal(n)[i]
            <= 57,
    decreases n,
{
    if n >= 10 {
        lemma_decimal_ascii(n / 10);
        assert forall|i: int| 0 <= i < spec_decimal(n).len() implies 48 <= #[trigger] spec_decimal(
            n,
        )[i] <= 57 by {
            if i < spec_decimal(n / 10).len() {
                assert(spec_decimal(n)[i] == spec_decimal(n / 10)[i]);
            }
        }
    }
}

/// Render `n` in decimal as a string.
pub fn decimal_string(n: u64) -> (r: String)
    ensures
        r@ == spec_ascii_chars(spec_decimal(n as int)),
{
    let digits = decimal_bytes(n);
    proof {
        lemma_decimal_ascii(n as int);
    }
    string_from_ascii(digits.as_slice())
}

} // verus!

//! Internet checksums (RFC 1071): the one's-complement sum over 16-bit
//! words, with the TCP/UDP pseudo-header variants for IPv4.

use crate::util::spec_be16;
use vstd::prelude::*;

verus! {

/// The plain sum of the 16-bit big-endian words of `d` from `i` on,
/// with a trailing odd byte counted as its high-byte word.
pub open spec fn spec_checksum_sum(d: Seq<u8>, i: int) -> int
    decreases d.len() - i,
{
    if i < 0 {
        0
    } else if i + 2 <= d.len() {
        spec_be16(d, i) + spec_checksum_sum(d, i + 2)
    } else if i < d.len() {
        d[i] * 256
    } else {
        0
    }
}

/// The end-around-carry fold of a non-negative sum into 16 bits: the
/// residue modulo 0xFFFF, except that a non-zero multiple of 0xFFFF
/// folds to 0xFFFF itself.
pub open spec fn spec_fold16(s: int) -> int {
    if s == 0 {
        0
    } else if s % 0xFFFF == 0 {
        0xFFFF
    } else {
        s % 0xFFFF
    }
}

/// The Internet checksum of `d`: the one's complement of the folded
/// word sum.
pub open spec fn spec_internet_checksum(d: Seq<u8>) -> int {
    0xFFFF - spec_fold16(spec_checksum_sum(d, 0))
}

/// The IPv4 pseudo-header followed by the transport segment, padded to
/// an even length: source address, destination address, a zero byte,
/// the protocol number, and the 16-bit segment length.
pub open spec fn spec_pseudo_header(src: Seq<u8>, dst: Seq<u8>, proto: u8, seg: Seq<u8>) -> Seq<
    u8,
> {
    let base = src + dst + seq![0u8, proto] + seq![
        ((seg.len() / 256) as u8),
        ((seg.len() % 256) as u8),
    ] + seg;
    if base.len() % 2 == 1 {
        base.push(0u8)
    } else {
        base
    }
}

/// The header with its checksum field (bytes 10 and 11) zeroed, when it
/// is long enough to have one.
pub open spec fn spec_zeroed_header(h: Seq<u8>) -> Seq<u8> {
    if h.len() >= 12 {
        h.update(10, 0u8).update(11, 0u8)
    } else {
        h
    }
}

/// Checksum calculations over raw packet buffers.
pub struct PacketParser;

impl PacketParser {
    /// Calculate the Internet checksum (RFC 1071) of a buffer.
    #[verifier::loop_isolation(false)]
    pub fn internet_checksum(data: &[u8]) -> (r: u16)
        requires
            data@.len() <= 131070,
        ensures
            r == spec_internet_checksum(data@),
    {
        let n = data.len();
        let mut sum: u32 = 0;
        let mut i: usize = 0;
        while i + 2 <= n
            invariant
                i <= n,
                i % 2 == 0,
                sum + spec_checksum_sum(data@, i as int) == spec_checksum_sum(data@, 0),
                sum <= i * 0x8000,
            decreases n - i,
        {
            sum = sum + (data[i] as u32) * 256 + (data[i + 1] as u32);
            i = i + 2;
        }
        if i < n {
            sum = sum + (data[i] as u32) * 256;
        }
        assert(sum == spec_checksum_sum(data@, 0));
        let ghost total = sum as int;
        while sum >= 65536
            invariant
                sum % 0xFFFF == total % 0xFFFF,
                (sum == 0) <==> (total == 0),
            decreases sum,
        {
            let ghost prev = sum as int;
            let hi = sum / 65536;
            let lo = sum % 65536;
            sum = lo + hi;
            proof {
                vstd::arithmetic::div_mod::lemma_fundamental_div_mod(prev, 65536);
                assert(prev == 65535 * hi + (hi + lo)) by {
                    assert(prev == 65536 * hi + lo);
                }
                vstd::arithmetic::div_mod::lemma_mod_multiples_vanish(
                    hi as int,
                    hi + lo,
                    0xFFFF,
                );
            }
        }
        proof {
            assert(sum == spec_fold16(total)) by {
                vstd::arithmetic::div_mod::lemma_mod_self_0(0xFFFF);
                assert(sum <= 0xFFFF);
                if total == 0 {
                } else if total % 0xFFFF == 0 {
                    assert(sum % 0xFFFF == 0);
                    assert(sum != 0);
                    if sum < 0xFFFF {
                        vstd::arithmetic::div_mod::lemma_small_mod(sum as nat, 0xFFFF);
                        assert(false);
                    }
                    assert(sum == 0xFFFF);
                } else {
                    assert(sum % 0xFFFF != 0);
                    assert(sum != 0xFFFF);
                    assert(sum < 0xFFFF);
                    vstd::arithmetic::div_mod::lemma_small_mod(sum as nat, 0xFFFF);
                    assert(sum == total % 0xFFFF);
                }
            }
        }
        65535 - (sum as u16)
    }

    /// Calculate the TCP checksum with the IPv4 pseudo-header.
    pub fn tcp_checksum_ipv4(src_ip: &[u8; 4], dst_ip: &[u8; 4], tcp_segment: &[u8]) -> (r: u16)
        requires
            tcp_segment@.len() <= 65535,
        ensures
            r == spec_internet_checksum(
                spec_pseudo_header(src_ip@, dst_ip@, 6, tcp_segment@),
            ),
    {
        Self::pseudo_checksum(src_ip, dst_ip, 6, tcp_segment)
    }

    /// Calculate the UDP checksum with the IPv4 pseudo-header.
    pub fn udp_checksum_ipv4(src_ip: &[u8; 4], dst_ip: &[u8; 4], udp_segment: &[u8]) -> (r: u16)
        requires
            udp_segment@.len() <= 65535,
        ensures
            r == spec_internet_checksum(
                spec_pseudo_header(src_ip@, dst_ip@, 17, udp_segment@),
            ),
    {
        Self::pseudo_checksum(src_ip, dst_ip, 17, udp_segment)
    }

    /// Build the pseudo-header and checksum it.
    fn pseudo_checksum(src_ip: &[u8; 4], dst_ip: &[u8; 4], proto: u8, seg: &[u8]) -> (r: u16)
        requires
            seg@.len() <= 65535,
        ensures
            r == spec_internet_checksum(spec_pseudo_header(src_ip@, dst_ip@, proto, seg@)),
    {
        let seg_len = seg.len();
        let mut pseudo: Vec<u8> = Vec::new();
        pseudo.extend_from_slice(src_ip.as_slice());
        pseudo.extend_from_slice(dst_ip.as_slice());
        pseudo.push(0);
        pseudo.push(proto);
        pseudo.push((seg_len / 256) as u8);
        pseudo.push((seg_len % 256) as u8);
        pseudo.extend_from_slice(seg);
        if pseudo.len() % 2 != 0 {
            pseudo.push(0);
        }
        proof {
            assert(pseudo@ =~= spec_pseudo_header(src_ip@, dst_ip@, proto, seg@));
        }
        Self::internet_checksum(pseudo.as_slice())
    }

    /// Calculate the IPv4 header checksum, with the stored checksum
    /// field zeroed first.
    pub fn ipv4_header_checksum(header: &[u8]) -> (r: u16)
        requires
            header@.len() <= 65535,
        ensures
            r == spec_internet_checksum(spec_zeroed_header(header@)),
    {
        let mut header_copy: Vec<u8> = vstd::slice::slice_to_vec(header);
        if header_copy.len() >= 12 {
            header_copy.set(10, 0);
            header_copy.set(11, 0);
        }
        proof {
            assert(header_copy@ =~= spec_zeroed_header(header@));
        }
        Self::internet_checksum(header_copy.as_slice())
    }
}

} // verus!

//! One's-complement internet checksum helpers for the TUN offload path:
//! an unfolded 32-bit-wide accumulation, its folding to 16 bits, and the
//! TCP/UDP pseudo-header sum.

use vstd::prelude::*;

verus! {

/// The unfolded checksum accumulation: big-endian 32-bit words while at
/// least four bytes remain, then one 16-bit word, then a final odd byte
/// padded on the right.
pub open spec fn spec_checksum_no_fold(pkt: Seq<u8>, initial: int) -> int
    decreases pkt.len(),
{
    if pkt.len() >= 4 {
        spec_checksum_no_fold(
            pkt.skip(4),
            initial + pkt[0] * 0x100_0000 + pkt[1] * 0x1_0000 + pkt[2] * 0x100 + pkt[3],
        )
    } else if pkt.len() >= 2 {
        spec_checksum_no_fold(pkt.skip(2), initial + pkt[0] * 0x100 + pkt[1])
    } else if pkt.len() == 1 {
        initial + pkt[0] * 0x100
    } else {
        initial
    }
}

/// One folding step: the upper bits are added back onto the low 16.
pub open spec fn spec_fold_step(a: int) -> int {
    a / 0x1_0000 + a % 0x1_0000
}

/// The folded 16-bit checksum of `pkt` over `initial`: four folding
/// steps, truncated to 16 bits.
pub open spec fn spec_checksum(pkt: Seq<u8>, initial: int) -> int {
    spec_fold_step(spec_fold_step(spec_fold_step(spec_fold_step(
        spec_checksum_no_fold(pkt, initial),
    )))) % 0x1_0000
}

/// Accumulates the unfolded checksum of `pkt` on top of `initial`.
#[verifier::loop_isolation(false)]
pub fn checksum_no_fold(pkt: &[u8], initial: u64) -> (r: u64)
    requires
        pkt@.len() <= 0x4000_0000,
        initial <= 0x1000_0000_0000_0000,
    ensures
        r == spec_checksum_no_fold(pkt@, initial as int),
        r <= initial + pkt@.len() * 0x4000_0000,
{
    let mut ac: u64 = initial;
    let mut i: usize = 0;
    let mut n: usize = pkt.len();
    proof {
        assert(pkt@.skip(0) =~= pkt@);
    }
    while n >= 4
        invariant
            i + n == pkt@.len(),
            ac <= initial + i * 0x4000_0000,
            spec_checksum_no_fold(pkt@, initial as int) == spec_checksum_no_fold(
                pkt@.skip(i as int),
                ac as int,
            ),
        decreases n,
    {
        let w: u64 = (pkt[i] as u64) * 0x100_0000 + (pkt[i + 1] as u64) * 0x1_0000 + (pkt[i
            + 2] as u64) * 0x100 + (pkt[i + 3] as u64);
        proof {
            let rest = pkt@.skip(i as int);
            assert(rest[0] == pkt@[i as int]);
            assert(rest[1] == pkt@[i + 1]);
            assert(rest[2] == pkt@[i + 2]);
            assert(rest[3] == pkt@[i + 3]);
            assert(rest.skip(4) =~= pkt@.skip(i + 4));
        }
        ac = ac + w;
        i = i + 4;
        n = n - 4;
    }
    while n >= 2
        invariant
            i + n == pkt@.len(),
            n < 4,
            ac <= initial + i * 0x4000_0000,
            spec_checksum_no_fold(pkt@, initial as int) == spec_checksum_no_fold(
                pkt@.skip(i as int),
                ac as int,
            ),
        decreases n,
    {
        let w: u64 = (pkt[i] as u64) * 0x100 + (pkt[i + 1] as u64);
        proof {
            let rest = pkt@.skip(i as int);
            assert(rest[0] == pkt@[i as int]);
            assert(rest[1] == pkt@[i + 1]);
            assert(rest.skip(2) =~= pkt@.skip(i + 2));
        }
        ac = ac + w;
        i = i + 2;
        n = n - 2;
    }
    if n == 1 {
        proof {
            let rest = pkt@.skip(i as int);
            assert(rest[0] == pkt@[i as int]);
        }
        ac = ac + (pkt[i] as u64) * 0x100;
    }
    ac
}

/// Folds the unfolded checksum of `pkt` over `initial` down to 16 bits.
pub fn checksum(pkt: &[u8], initial: u64) -> (r: u16)
    requires
        pkt@.len() <= 0x4000_0000,
        initial <= 0x1000_0000_0000_0000,
    ensures
        r == spec_checksum(pkt@, initial as int),
{
    let ac0 = checksum_no_fold(pkt, initial);
    let ac1 = fold_step(ac0);
    let ac2 = fold_step(ac1);
    let ac3 = fold_step(ac2);
    let ac4 = fold_step(ac3);
    proof {
        let a = ac4;
        assert((a as u16) == a % 0x1_0000) by (bit_vector);
    }
    ac4 as u16
}

/// One executable folding step.
fn fold_step(ac: u64) -> (r: u64)
    ensures
        r == spec_fold_step(ac as int),
{
    let hi: u64 = ac >> 16;
    let lo: u64 = ac & 0xffff;
    proof {
        let a = ac;
        assert(a >> 16 == a / 0x1_0000) by (bit_vector);
        assert(a & 0xffff == a % 0x1_0000) by (bit_vector);
        assert(a >> 16 <= 0xFFFF_FFFF_FFFFu64) by (bit_vector);
        assert(a & 0xffff <= 0xffffu64) by (bit_vector);
    }
    hi + lo
}

/// The unfolded checksum of the TCP/UDP pseudo-header: source address,
/// destination address, a zero byte with the protocol number, and the
/// total length, in order.
pub open spec fn spec_pseudo_header_checksum_no_fold(
    protocol: u8,
    src_addr: Seq<u8>,
    dst_addr: Seq<u8>,
    total_len: u16,
) -> int {
    spec_checksum_no_fold(
        seq![(total_len / 0x100) as u8, (total_len % 0x100) as u8],
        spec_checksum_no_fold(
            seq![0u8, protocol],
            spec_checksum_no_fold(dst_addr, spec_checksum_no_fold(src_addr, 0)),
        ),
    )
}

/// Accumulates the pseudo-header checksum.
pub fn pseudo_header_checksum_no_fold(
    protocol: u8,
    src_addr: &[u8],
    dst_addr: &[u8],
    total_len: u16,
) -> (r: u64)
    requires
        src_addr@.len() <= 16,
        dst_addr@.len() <= 16,
    ensures
        r == spec_pseudo_header_checksum_no_fold(protocol, src_addr@, dst_addr@, total_len),
{
    let sum = checksum_no_fold(src_addr, 0);
    let sum = checksum_no_fold(dst_addr, sum);
    let proto_bytes: [u8; 2] = [0, protocol];
    proof {
        assert(proto_bytes@ =~= seq![0u8, protocol]);
    }
    let sum = checksum_no_fold(proto_bytes.as_slice(), sum);
    let len_hi: u8 = (total_len / 0x100) as u8;
    let len_lo: u8 = (total_len % 0x100) as u8;
    let len_bytes: [u8; 2] = [len_hi, len_lo];
    proof {
        assert(len_bytes@ =~= seq![(total_len / 0x100) as u8, (total_len % 0x100) as u8]);
    }
    checksum_no_fold(len_bytes.as_slice(), sum)
}

} // verus!

//! Small verified helpers on byte buffers: building, slicing, comparing,
//! and little-endian integer fields, shared by the codec and the
//! cryptographic transcript.

use vstd::prelude::*;
use vstd::bytes::{
    spec_u32_from_le_bytes, spec_u32_to_le_bytes, spec_u64_from_le_bytes, spec_u64_to_le_bytes,
    u32_from_le_bytes, u32_to_le_bytes, u64_from_le_bytes, u64_to_le_bytes,
    lemma_auto_spec_u32_to_from_le_bytes, lemma_auto_spec_u64_to_from_le_bytes,
};
use vstd::slice::slice_subrange;

verus! {

/// Appends every byte of `src` to `dst`.
pub fn append_bytes(dst: &mut Vec<u8>, src: &[u8])
    ensures
        final(dst)@ == old(dst)@ + src@,
{
    let ghost orig = dst@;
    let mut i: usize = 0;
    while i < src.len()
        invariant
            0 <= i <= src@.len(),
            dst@ == orig + src@.subrange(0, i as int),
        decreases src@.len() - i,
    {
        dst.push(src[i]);
        i = i + 1;
        proof {
            assert(dst@ == orig + src@.subrange(0, i as int));
        }
    }
    proof {
        assert(src@.subrange(0, src@.len() as int) == src@);
    }
}

/// Copies a slice into a fresh vector.
pub fn bytes_of(src: &[u8]) -> (r: Vec<u8>)
    ensures
        r@ == src@,
{
    let mut r: Vec<u8> = Vec::new();
    append_bytes(&mut r, src);
    r
}

/// Copies the range `[start, end)` of `src` into a fresh vector.
pub fn sub_bytes(src: &[u8], start: usize, end: usize) -> (r: Vec<u8>)
    requires
        0 <= start <= end <= src@.len(),
    ensures
        r@ == src@.subrange(start as int, end as int),
{
    bytes_of(slice_subrange(src, start, end))
}

/// A sequence of `n` zero bytes.
pub open spec fn spec_zero_bytes(n: int) -> Seq<u8> {
    Seq::new(n as nat, |i: int| 0u8)
}

/// A fresh vector of `n` zero bytes.
pub fn zero_vec(n: usize) -> (r: Vec<u8>)
    ensures
        r@ == spec_zero_bytes(n as int),
        r@.len() == n,
{
    let mut r: Vec<u8> = Vec::new();
    let mut i: usize = 0;
    while i < n
        invariant
            0 <= i <= n,
            r@.len() == i,
            forall|j: int| 0 <= j < i ==> r@[j] == 0u8,
        decreases n - i,
    {
        r.push(0u8);
        i = i + 1;
    }
    proof {
        assert(r@ =~= spec_zero_bytes(n as int));
    }
    r
}

/// Byte-wise equality through a single accumulator, so that the running
/// time does not depend on where the inputs first differ.
pub fn bytes_eq(a: &[u8], b: &[u8]) -> (r: bool)
    ensures
        r == (a@ == b@),
{
    if a.len() != b.len() {
        proof {
            assert(a@ != b@);
        }
        return false;
    }
    let mut acc: u8 = 0;
    let mut i: usize = 0;
    while i < a.len()
        invariant
            0 <= i <= a@.len(),
            a@.len() == b@.len(),
            (acc == 0) <==> (forall|j: int| 0 <= j < i ==> a@[j] == b@[j]),
        decreases a@.len() - i,
    {
        let d: u8 = a[i] ^ b[i];
        proof {
            let x = a@[i as int];
            let y = b@[i as int];
            assert((x ^ y) == 0 <==> x == y) by (bit_vector);
            let acc0 = acc;
            assert((acc0 | (x ^ y)) == 0 <==> (acc0 == 0 && (x ^ y) == 0)) by (bit_vector);
        }
        acc = acc | d;
        i = i + 1;
    }
    if acc == 0 {
        proof {
            assert(a@ =~= b@);
        }
        true
    } else {
        proof {
            assert(a@.len() == b@.len());
            assert(exists|j: int| 0 <= j < a@.len() && a@[j] != b@[j]);
        }
        false
    }
}

/// Lexicographic strict order on byte sequences.
pub open spec fn spec_lex_lt(a: Seq<u8>, b: Seq<u8>) -> bool
    decreases a.len(),
{
    if b.len() == 0 {
        false
    } else if a.len() == 0 {
        true
    } else if a[0] < b[0] {
        true
    } else if a[0] > b[0] {
        false
    } else {
        spec_lex_lt(a.skip(1), b.skip(1))
    }
}

/// Dropping a shared first byte does not change the order.
proof fn lemma_lex_lt_step(a: Seq<u8>, b: Seq<u8>)
    requires
        a.len() > 0,
        b.len() > 0,
        a[0] == b[0],
    ensures
        spec_lex_lt(a, b) == spec_lex_lt(a.skip(1), b.skip(1)),
{
}

/// Whether `a` is lexicographically before `b`.
#[verifier::loop_isolation(false)]
pub fn bytes_lt(a: &[u8], b: &[u8]) -> (r: bool)
    ensures
        r == spec_lex_lt(a@, b@),
{
    let an = a.len();
    let bn = b.len();
    let n = if an < bn {
        an
    } else {
        bn
    };
    let mut i: usize = 0;
    proof {
        assert(a@.skip(0) =~= a@);
        assert(b@.skip(0) =~= b@);
    }
    while i < n
        invariant
            0 <= i <= n,
            n == if an < bn { an as int } else { bn as int },
            forall|j: int| 0 <= j < i ==> a@[j] == b@[j],
            spec_lex_lt(a@, b@) == spec_lex_lt(a@.skip(i as int), b@.skip(i as int)),
        decreases n - i,
    {
        if a[i] < b[i] {
            proof {
                assert(a@.skip(i as int)[0] == a@[i as int]);
            }
            return true;
        }
        if a[i] > b[i] {
            proof {
                assert(a@.skip(i as int)[0] == a@[i as int]);
            }
            return false;
        }
        proof {
            lemma_lex_lt_step(a@.skip(i as int), b@.skip(i as int));
            assert(a@.skip(i as int).skip(1) =~= a@.skip(i + 1));
            assert(b@.skip(i as int).skip(1) =~= b@.skip(i + 1));
        }
        i = i + 1;
    }
    proof {
        assert(spec_lex_lt(a@.skip(n as int), b@.skip(n as int)) == (an < bn));
    }
    an < bn
}

/// Reads the little-endian `u32` at offset `at`.
pub fn read_u32_le(src: &[u8], at: usize) -> (r: u32)
    requires
        at + 4 <= src@.len(),
    ensures
        r == spec_u32_from_le_bytes(src@.subrange(at as int, at + 4)),
{
    let n = src.len();
    proof {
        assert(at + 4 <= n);
    }
    u32_from_le_bytes(slice_subrange(src, at, at + 4))
}

/// Reads the little-endian `u64` at offset `at`.
pub fn read_u64_le(src: &[u8], at: usize) -> (r: u64)
    requires
        at + 8 <= src@.len(),
    ensures
        r == spec_u64_from_le_bytes(src@.subrange(at as int, at + 8)),
{
    let n = src.len();
    proof {
        assert(at + 8 <= n);
    }
    u64_from_le_bytes(slice_subrange(src, at, at + 8))
}

/// Appends `x` to `dst` as four little-endian bytes.
pub fn push_u32_le(dst: &mut Vec<u8>, x: u32)
    ensures
        final(dst)@ == old(dst)@ + spec_u32_to_le_bytes(x),
{
    let bytes = u32_to_le_bytes(x);
    append_bytes(dst, bytes.as_slice());
}

/// Appends `x` to `dst` as eight little-endian bytes.
pub fn push_u64_le(dst: &mut Vec<u8>, x: u64)
    ensures
        final(dst)@ == old(dst)@ + spec_u64_to_le_bytes(x),
{
    let bytes = u64_to_le_bytes(x);
    append_bytes(dst, bytes.as_slice());
}

/// Overwrites `dst[at .. at + src.len()]` with `src`, leaving the rest.
pub fn write_at(dst: &mut Vec<u8>, at: usize, src: &[u8])
    requires
        at + src@.len() <= old(dst)@.len(),
    ensures
        final(dst)@.len() == old(dst)@.len(),
        final(dst)@ == old(dst)@.subrange(0, at as int) + src@ + old(dst)@.skip(
            at + src@.len(),
        ),
{
    let ghost orig = dst@;
    let n = src.len();
    let total = dst.len();
    let mut i: usize = 0;
    while i < n
        invariant
            0 <= i <= n == src@.len(),
            at + n <= orig.len(),
            total == orig.len(),
            dst@.len() == orig.len(),
            dst@ == orig.subrange(0, at as int) + src@.subrange(0, i as int) + orig.skip(
                at + i,
            ),
        decreases n - i,
    {
        dst.set(at + i, src[i]);
        i = i + 1;
        proof {
            assert(dst@ =~= orig.subrange(0, at as int) + src@.subrange(0, i as int) + orig.skip(
                at + i,
            ));
        }
    }
    proof {
        assert(dst@ =~= orig.subrange(0, at as int) + src@ + orig.skip(at + n));
    }
}

/// Round trips of the little-endian field helpers, re-stated here so the
/// codec can cite one lemma for both widths.
pub proof fn lemma_le_round_trips()
    ensures
        forall|x: u32| #[trigger] spec_u32_from_le_bytes(spec_u32_to_le_bytes(x)) == x,
        forall|x: u32| #[trigger] spec_u32_to_le_bytes(x).len() == 4,
        forall|s: Seq<u8>|
            s.len() == 4 ==> #[trigger] spec_u32_to_le_bytes(spec_u32_from_le_bytes(s)) == s,
        forall|x: u64| #[trigger] spec_u64_from_le_bytes(spec_u64_to_le_bytes(x)) == x,
        forall|x: u64| #[trigger] spec_u64_to_le_bytes(x).len() == 8,
        forall|s: Seq<u8>|
            s.len() == 8 ==> #[trigger] spec_u64_to_le_bytes(spec_u64_from_le_bytes(s)) == s,
{
    lemma_auto_spec_u32_to_from_le_bytes();
    lemma_auto_spec_u64_to_from_le_bytes();
    assert forall|x: u32| #[trigger] spec_u32_from_le_bytes(spec_u32_to_le_bytes(x)) == x by {
        assert(spec_u32_to_le_bytes(x).len() == 4);
    }
    assert forall|x: u32| #[trigger] spec_u32_to_le_bytes(x).len() == 4 by {
        assert(spec_u32_to_le_bytes(x).len() == 4);
    }
    assert forall|x: u64| #[trigger] spec_u64_from_le_bytes(spec_u64_to_le_bytes(x)) == x by {
        assert(spec_u64_to_le_bytes(x).len() == 8);
    }
    assert forall|x: u64| #[trigger] spec_u64_to_le_bytes(x).len() == 8 by {
        assert(spec_u64_to_le_bytes(x).len() == 8);
    }
}

} // verus!

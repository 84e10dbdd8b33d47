//! Hamming weight (population count) of a byte slice: a scalar
//! byte-by-byte count, and a fast version that runs the tree-merging
//! kernel over the aligned interior of the slice.

use vstd::prelude::*;
use crate::bits::{pop_byte, popcount, pop8, lemma_popcount_bounds, lemma_popcount_concat,
    lemma_popcount_split};
use crate::kernel::block_weight;
use crate::util::align_to;

verus! {

/// Byte-by-byte population count: the scalar ground truth that the fast
/// path is proved to match.  The length bound keeps the count (at most
/// eight per byte) inside a `u64`.
pub fn naive(x: &[u8]) -> (r: u64)
    requires
        x@.len() < 0x2000_0000_0000_0000,
    ensures
        r as int == popcount(x@),
{
    let n = x.len();
    let mut count: u64 = 0;
    let mut i: usize = 0;
    while i < n
        invariant
            n == x@.len(),
            n < 0x2000_0000_0000_0000,
            i <= n,
            count as int == popcount(x@.subrange(0, i as int)),
            count <= 8 * i,
        decreases n - i,
    {
        proof {
            assert(x@.subrange(0, i as int + 1).drop_last() =~= x@.subrange(0, i as int));
            assert(x@.subrange(0, i as int + 1).last() == x@[i as int]);
        }
        count = count + pop8(x[i]) as u64;
        i += 1;
    }
    proof {
        assert(x@.subrange(0, n as int) =~= x@);
    }
    count
}

/// Hamming weight of `x`: the number of 1-bits, equal to the scalar
/// count for every input.  The aligned interior is counted 240 bytes at
/// a time by the tree-merging kernel; the fringes are counted by the
/// scalar loop.  The length bound keeps the count inside a `u64`.
pub fn weight(x: &[u8]) -> (r: u64)
    requires
        x@.len() < 0x2000_0000_0000_0000,
    ensures
        r as int == popcount(x@),
{
    proof {
        assert(8usize >= 1 && (8usize & 7usize) == 0) by (bit_vector);
    }
    let (head, middle, tail) = align_to(x, 240, 8);
    proof {
        lemma_popcount_bounds(head@);
        lemma_popcount_bounds(tail@);
        lemma_popcount_bounds(middle@);
        lemma_popcount_concat(head@ + middle@, tail@);
        lemma_popcount_concat(head@, middle@);
    }
    let fringe = naive(head) + naive(tail);
    let mlen = middle.len();
    let nb = mlen / 240;
    proof {
        vstd::arithmetic::div_mod::lemma_fundamental_div_mod(mlen as int, 240);
    }
    let mut bcount: u64 = 0;
    let mut k: usize = 0;
    while k < nb
        invariant
            mlen == middle@.len(),
            mlen < 0x2000_0000_0000_0000,
            nb == mlen as int / 240,
            mlen as int == 240 * nb,
            k <= nb,
            bcount as int == popcount(middle@.subrange(0, 240 * k as int)),
            bcount <= 1920 * k,
        decreases nb - k,
    {
        proof {
            lemma_popcount_split(middle@, 0, 240 * k as int, 240 * k as int + 240);
            lemma_popcount_bounds(middle@.subrange(0, 240 * k as int));
        }
        let b = block_weight(middle, 240 * k);
        bcount = bcount + b;
        k += 1;
    }
    proof {
        assert(middle@.subrange(0, 240 * nb as int) =~= middle@);
        lemma_popcount_bounds(x@);
    }
    fringe + bcount
}

/// The weight of an all-zero sequence is 0.
pub proof fn lemma_weight_all_zero(s: Seq<u8>)
    requires
        forall|i: int| 0 <= i < s.len() ==> s[i] == 0,
    ensures
        popcount(s) == 0,
    decreases s.len(),
{
    assert(pop_byte(0) == 0) by (bit_vector);
    if s.len() > 0 {
        lemma_weight_all_zero(s.drop_last());
    }
}

/// The weight of an all-ones sequence of n bytes is 8 n.
pub proof fn lemma_weight_all_ones(s: Seq<u8>)
    requires
        forall|i: int| 0 <= i < s.len() ==> s[i] == 0xff,
    ensures
        popcount(s) == 8 * s.len(),
    decreases s.len(),
{
    assert(pop_byte(0xff) == 8) by (bit_vector);
    if s.len() > 0 {
        lemma_weight_all_ones(s.drop_last());
    }
}

} // verus!

//! Hamming distance between two equal-length byte slices: a scalar
//! bytewise count, a fast version that xors and counts 240-byte blocks
//! when both slices admit the same alignment shift, and a total version
//! that falls back to the scalar count when they do not.

use vstd::prelude::*;
use crate::bits::{popcount, xor_bytes, hamming, pop8, lemma_popcount_bounds, lemma_popcount_split,
    lemma_xor_bytes_subrange};
use crate::kernel::block_distance;
use crate::util::{alignment_offset, split_at_offset, split_head_len};

verus! {

/// Returned by `distance_fast` when the two inputs sit at different
/// offsets from the block alignment, so no block-wise fast path can
/// compare them byte for byte.
#[derive(Debug, PartialEq, Eq, Ord, PartialOrd, Hash, Clone)]
pub struct DistanceError {
    _x: bool,
}

/// Bytewise scalar distance: the ground truth that the fast path is
/// proved to match.  The length bound keeps the count inside a `u64`.
pub fn naive(x: &[u8], y: &[u8]) -> (r: u64)
    requires
        x@.len() == y@.len(),
        x@.len() < 0x2000_0000_0000_0000,
    ensures
        r as int == hamming(x@, y@),
{
    let ghost u = xor_bytes(x@, y@);
    let n = x.len();
    let mut count: u64 = 0;
    let mut i: usize = 0;
    while i < n
        invariant
            n == x@.len(),
            n == y@.len(),
            n < 0x2000_0000_0000_0000,
            u == xor_bytes(x@, y@),
            i <= n,
            count as int == popcount(u.subrange(0, i as int)),
            count <= 8 * i,
        decreases n - i,
    {
        proof {
            assert(u.subrange(0, i as int + 1).drop_last() =~= u.subrange(0, i as int));
            assert(u.subrange(0, i as int + 1).last() == u[i as int]);
            assert(u[i as int] == x@[i as int] ^ y@[i as int]);
        }
        count = count + pop8(x[i] ^ y[i]) as u64;
        i += 1;
    }
    proof {
        assert(u.subrange(0, n as int) =~= u);
    }
    count
}

/// Distance through the aligned fast path, for given alignment shifts
/// `off_x` and `off_y`: both slices are split for their shift, and the
/// fast path runs exactly when the two head fringes come out the same
/// length, so that head, blocks and tail line up byte for byte.  The
/// result is `Ok` if and only if the head lengths agree, and then holds
/// exactly the scalar distance.
pub fn distance_with_offsets(x: &[u8], y: &[u8], off_x: usize, off_y: usize) -> (r: Result<
    u64,
    DistanceError,
>)
    requires
        x@.len() == y@.len(),
        x@.len() < 0x2000_0000_0000_0000,
    ensures
        r is Ok <==> split_head_len(x@.len() as int, 240, 8, off_x as int) == split_head_len(
            y@.len() as int,
            240,
            8,
            off_y as int,
        ),
        r matches Ok(c) ==> c as int == hamming(x@, y@),
{
    let (h1, m1, t1) = split_at_offset(x, 240, 8, off_x);
    let (h2, m2, t2) = split_at_offset(y, 240, 8, off_y);
    if h1.len() != h2.len() {
        return Err(DistanceError { _x: false });
    }
    let ghost u = xor_bytes(x@, y@);
    let ghost n = x@.len() as int;
    let ghost hl = h1@.len() as int;
    let ghost ml = m1@.len() as int;
    proof {
        assert(t1@.len() == t2@.len());
        assert(m1@.len() == m2@.len());
        lemma_xor_bytes_subrange(x@, y@, 0, hl);
        lemma_xor_bytes_subrange(x@, y@, hl, hl + ml);
        lemma_xor_bytes_subrange(x@, y@, hl + ml, n);
        assert(u.subrange(0, n) =~= u);
        lemma_popcount_split(u, 0, hl, n);
        lemma_popcount_split(u.subrange(hl, n), 0, ml, n - hl);
        assert(u.subrange(hl, n).subrange(0, n - hl) =~= u.subrange(hl, n));
        assert(u.subrange(hl, n).subrange(0, ml) =~= u.subrange(hl, hl + ml));
        assert(u.subrange(hl, n).subrange(ml, n - hl) =~= u.subrange(hl + ml, n));
        assert(popcount(u) == popcount(u.subrange(0, hl)) + popcount(u.subrange(hl, hl + ml))
            + popcount(u.subrange(hl + ml, n)));
        lemma_popcount_bounds(xor_bytes(h1@, h2@));
        lemma_popcount_bounds(xor_bytes(t1@, t2@));
        lemma_popcount_bounds(xor_bytes(m1@, m2@));
        lemma_popcount_bounds(u);
    }
    let fringe = naive(h1, h2) + naive(t1, t2);
    let ghost um = xor_bytes(m1@, m2@);
    let mlen = m1.len();
    let nb = mlen / 240;
    proof {
        vstd::arithmetic::div_mod::lemma_fundamental_div_mod(mlen as int, 240);
    }
    let mut bcount: u64 = 0;
    let mut k: usize = 0;
    while k < nb
        invariant
            mlen == m1@.len(),
            m1@.len() == m2@.len(),
            mlen < 0x2000_0000_0000_0000,
            nb == mlen as int / 240,
            mlen as int == 240 * nb,
            um == xor_bytes(m1@, m2@),
            k <= nb,
            bcount as int == popcount(um.subrange(0, 240 * k as int)),
            bcount <= 1920 * k,
        decreases nb - k,
    {
        proof {
            lemma_popcount_split(um, 0, 240 * k as int, 240 * k as int + 240);
            lemma_popcount_bounds(um.subrange(0, 240 * k as int));
        }
        let b = block_distance(m1, m2, 240 * k);
        bcount = bcount + b;
        k += 1;
    }
    proof {
        assert(um.subrange(0, 240 * nb as int) =~= um);
        assert(um =~= u.subrange(hl, hl + ml));
        assert(xor_bytes(h1@, h2@) =~= u.subrange(0, hl));
        assert(xor_bytes(t1@, t2@) =~= u.subrange(hl + ml, n));
    }
    Ok(fringe + bcount)
}

/// Distance through the aligned fast path only.  The alignment shifts
/// come from the slices' actual addresses; the fast path runs exactly
/// when both slices get the same head fringe — in particular always
/// when the inputs are shorter than one block — and then returns
/// exactly the scalar distance.  On differing fringes it returns
/// `DistanceError` and computes nothing.
pub fn distance_fast(x: &[u8], y: &[u8]) -> (r: Result<u64, DistanceError>)
    requires
        x@.len() == y@.len(),
        x@.len() < 0x2000_0000_0000_0000,
    ensures
        r matches Ok(c) ==> c as int == hamming(x@, y@),
        x@.len() < 240 ==> r is Ok,
{
    proof {
        assert(8usize >= 1 && (8usize & 7usize) == 0) by (bit_vector);
    }
    let off_x = alignment_offset(x, 8);
    let off_y = alignment_offset(y, 8);
    distance_with_offsets(x, y, off_x, off_y)
}

/// Total Hamming distance: the fast path when both inputs share an
/// alignment shift, otherwise the scalar count over the whole inputs.
/// Always equal to the scalar distance.
pub fn distance(x: &[u8], y: &[u8]) -> (r: u64)
    requires
        x@.len() == y@.len(),
        x@.len() < 0x2000_0000_0000_0000,
    ensures
        r as int == hamming(x@, y@),
{
    match distance_fast(x, y) {
        Ok(c) => c,
        Err(_) => naive(x, y),
    }
}

/// Xor of bytes is symmetric.
proof fn lemma_xor_comm(a: u8, b: u8)
    by (bit_vector)
    ensures
        (a ^ b) == (b ^ a),
{
}

/// Distance is symmetric in its two arguments.
pub proof fn lemma_distance_symmetric(x: Seq<u8>, y: Seq<u8>)
    requires
        x.len() == y.len(),
    ensures
        hamming(x, y) == hamming(y, x),
{
    assert forall|i: int| 0 <= i < x.len() implies xor_bytes(x, y)[i] == xor_bytes(y, x)[i] by {
        let a = x[i];
        let b = y[i];
        lemma_xor_comm(a, b);
    }
    assert(xor_bytes(x, y) =~= xor_bytes(y, x));
}

} // verus!

//! The alignment-aware splitter: partitions a byte slice into a head
//! fringe, a middle region holding a whole number of fixed-size blocks
//! that begins at an address satisfying the requested alignment, and a
//! tail fringe shorter than one block.  The shift to the first aligned
//! address comes from one trusted probe of the slice's address; all the
//! partitioning logic is verified for every value the probe could give.

use vstd::prelude::*;
use vstd::slice::slice_subrange;

verus! {

/// `align` is a power of two.
pub open spec fn is_pow2(align: usize) -> bool {
    align >= 1 && (align & ((align - 1) as usize)) == 0
}

/// The head length that `split_at_offset` produces for a slice of
/// length `n` given the shift `off`: the shift itself when at least one
/// whole block fits behind it, otherwise the whole slice.  A shift of
/// `align` or more never arises from a real address and is treated as
/// "no aligned region".
pub open spec fn split_head_len(n: int, size: int, align: int, off: int) -> int {
    if off >= align || off > n || n - off < size {
        n
    } else {
        off
    }
}

/// Relies on `<*const u8>::align_offset` (std): the number of bytes from
/// the slice's start address to the next address divisible by `align`.
/// The value depends on where the slice sits in memory, so nothing is
/// assumed of it; every caller is verified for every possible value.
/// `align_offset` panics only when `align` is not a power of two, which
/// the precondition rules out.
#[verifier::external_body]
pub(crate) fn alignment_offset(x: &[u8], align: usize) -> usize
    requires
        is_pow2(align),
{
    x.as_ptr().align_offset(align)
}

/// Partitions `x` into `(head, middle, tail)` for a given shift `off`:
/// `head` takes the first `split_head_len` bytes, `middle` the maximal
/// whole number of `size`-byte blocks after it, `tail` the rest.  Only
/// the grouping changes: the three pieces concatenate back to `x`, byte
/// for byte.
pub fn split_at_offset<'a>(x: &'a [u8], size: usize, align: usize, off: usize) -> (r: (
    &'a [u8],
    &'a [u8],
    &'a [u8],
))
    requires
        1 < size,
    ensures
        x@ == r.0@ + r.1@ + r.2@,
        r.0@ == x@.subrange(0, r.0@.len() as int),
        r.1@ == x@.subrange(r.0@.len() as int, r.0@.len() as int + r.1@.len() as int),
        r.2@ == x@.subrange(r.0@.len() as int + r.1@.len() as int, x@.len() as int),
        r.0@.len() as int == split_head_len(x@.len() as int, size as int, align as int, off as int),
        r.1@.len() as int % size as int == 0,
        r.2@.len() as int == (x@.len() - r.0@.len()) % size as int,
        r.1@.len() == 0 ==> r.0@ == x@ && r.2@.len() == 0,
        r.1@.len() != 0 ==> r.0@.len() < align,
{
    let n = x.len();
    if off >= align || off >= n || n - off < size {
        let empty = slice_subrange(x, n, n);
        let whole = slice_subrange(x, 0, n);
        proof {
            vstd::arithmetic::div_mod::lemma_small_mod(0, size as nat);
            assert(x@.subrange(0, n as int) =~= x@);
            assert(x@ =~= x@ + x@.subrange(n as int, n as int) + x@.subrange(n as int, n as int));
        }
        return (whole, empty, empty);
    }
    let rem = (n - off) % size;
    let mid_end = n - rem;
    let head = slice_subrange(x, 0, off);
    let middle = slice_subrange(x, off, mid_end);
    let tail = slice_subrange(x, mid_end, n);
    proof {
        let span = (n - off) as int;
        let s = size as int;
        vstd::arithmetic::div_mod::lemma_mod_division_less_than_divisor(span, s);
        vstd::arithmetic::div_mod::lemma_fundamental_div_mod(span, s);
        assert(rem as int == span % s);
        assert(middle@.len() as int == span - span % s);
        vstd::arithmetic::mul::lemma_mul_is_commutative(s, span / s);
        assert(span - span % s == (span / s) * s);
        vstd::arithmetic::div_mod::lemma_mod_multiples_basic(span / s, s);
        assert(middle@.len() as int % s == 0);
        assert(x@ =~= x@.subrange(0, off as int) + x@.subrange(off as int, mid_end as int)
            + x@.subrange(mid_end as int, n as int));
    }
    (head, middle, tail)
}

/// Partitions `x` into `(head, middle, tail)`: `middle` is the maximal
/// run of whole `size`-byte blocks starting at the first `align`-aligned
/// address of `x`, and `head` and `tail` are the unaligned fringes.
/// When not even one block fits past the alignment shift, the whole
/// slice is returned as `head`.  Which shift the address imposes is not
/// knowable statically, so the contract pins everything except the head
/// length, which is some value the partition invariants allow.
pub fn align_to<'a>(x: &'a [u8], size: usize, align: usize) -> (r: (&'a [u8], &'a [u8], &'a [u8]))
    requires
        1 < size,
        is_pow2(align),
    ensures
        x@ == r.0@ + r.1@ + r.2@,
        r.0@ == x@.subrange(0, r.0@.len() as int),
        r.1@ == x@.subrange(r.0@.len() as int, r.0@.len() as int + r.1@.len() as int),
        r.2@ == x@.subrange(r.0@.len() as int + r.1@.len() as int, x@.len() as int),
        r.1@.len() as int % size as int == 0,
        r.2@.len() as int == (x@.len() - r.0@.len()) % size as int,
        r.1@.len() == 0 ==> r.0@ == x@ && r.2@.len() == 0,
        r.1@.len() != 0 ==> r.0@.len() < align,
{
    let off = alignment_offset(x, align);
    split_at_offset(x, size, align, off)
}

} // verus!

//! The bit-level model that every counting function is specified against:
//! the weight of a byte is the sum of its eight bits, the weight of a byte
//! sequence is the sum over its bytes, and the distance of two sequences is
//! the weight of their bytewise xor.

use vstd::prelude::*;

verus! {

/// Number of 1-bits in a byte: the sum of its eight bits.
pub open spec fn pop_byte(b: u8) -> int {
    (b & 1) + ((b >> 1) & 1) + ((b >> 2) & 1) + ((b >> 3) & 1) + ((b >> 4) & 1) + ((b >> 5) & 1)
        + ((b >> 6) & 1) + ((b >> 7) & 1)
}

/// Number of 1-bits in a byte sequence.
pub open spec fn popcount(s: Seq<u8>) -> int
    decreases s.len(),
{
    if s.len() == 0 {
        0
    } else {
        popcount(s.drop_last()) + pop_byte(s.last())
    }
}

/// The bytewise xor of two equal-length sequences.
pub open spec fn xor_bytes(x: Seq<u8>, y: Seq<u8>) -> Seq<u8>
    recommends
        x.len() == y.len(),
{
    Seq::new(x.len(), |i: int| x[i] ^ y[i])
}

/// Number of bit positions at which two equal-length sequences differ.
pub open spec fn hamming(x: Seq<u8>, y: Seq<u8>) -> int
    recommends
        x.len() == y.len(),
{
    popcount(xor_bytes(x, y))
}

/// Each bit of a byte is 0 or 1, so a byte weighs at most 8.
pub proof fn lemma_pop_byte_bounds(b: u8)
    ensures
        0 <= pop_byte(b) <= 8,
{
    assert(0 <= pop_byte(b) <= 8) by (bit_vector);
}

/// A sequence of n bytes weighs between 0 and 8 n.
pub proof fn lemma_popcount_bounds(s: Seq<u8>)
    ensures
        0 <= popcount(s) <= 8 * s.len(),
    decreases s.len(),
{
    if s.len() > 0 {
        lemma_popcount_bounds(s.drop_last());
        lemma_pop_byte_bounds(s.last());
    }
}

/// Weight is additive over concatenation.
pub proof fn lemma_popcount_concat(a: Seq<u8>, b: Seq<u8>)
    ensures
        popcount(a + b) == popcount(a) + popcount(b),
    decreases b.len(),
{
    if b.len() == 0 {
        assert(a + b =~= a);
    } else {
        lemma_popcount_concat(a, b.drop_last());
        assert((a + b).drop_last() =~= a + b.drop_last());
        assert((a + b).last() == b.last());
    }
}

/// The eight bytes of `s` starting at `i`, read as one little-endian
/// 64-bit word.
pub open spec fn word_of(s: Seq<u8>, i: int) -> u64
    recommends
        0 <= i,
        i + 8 <= s.len(),
{
    (s[i] as u64) | ((s[i + 1] as u64) << 8) | ((s[i + 2] as u64) << 16) | ((s[i + 3] as u64)
        << 24) | ((s[i + 4] as u64) << 32) | ((s[i + 5] as u64) << 40) | ((s[i + 6] as u64) << 48)
        | ((s[i + 7] as u64) << 56)
}

/// Number of 1-bits in a 64-bit word: the sum of its sixty-four bits.
pub open spec fn pop_word(x: u64) -> int {
    (x & 1) + ((x >> 1) & 1) + ((x >> 2) & 1) + ((x >> 3) & 1) + ((x >> 4) & 1) + ((x >> 5) & 1)
        + ((x >> 6) & 1) + ((x >> 7) & 1) + ((x >> 8) & 1) + ((x >> 9) & 1) + ((x >> 10) & 1) + ((x
        >> 11) & 1) + ((x >> 12) & 1) + ((x >> 13) & 1) + ((x >> 14) & 1) + ((x >> 15) & 1) + ((x
        >> 16) & 1) + ((x >> 17) & 1) + ((x >> 18) & 1) + ((x >> 19) & 1) + ((x >> 20) & 1) + ((x
        >> 21) & 1) + ((x >> 22) & 1) + ((x >> 23) & 1) + ((x >> 24) & 1) + ((x >> 25) & 1) + ((x
        >> 26) & 1) + ((x >> 27) & 1) + ((x >> 28) & 1) + ((x >> 29) & 1) + ((x >> 30) & 1) + ((x
        >> 31) & 1) + ((x >> 32) & 1) + ((x >> 33) & 1) + ((x >> 34) & 1) + ((x >> 35) & 1) + ((x
        >> 36) & 1) + ((x >> 37) & 1) + ((x >> 38) & 1) + ((x >> 39) & 1) + ((x >> 40) & 1) + ((x
        >> 41) & 1) + ((x >> 42) & 1) + ((x >> 43) & 1) + ((x >> 44) & 1) + ((x >> 45) & 1) + ((x
        >> 46) & 1) + ((x >> 47) & 1) + ((x >> 48) & 1) + ((x >> 49) & 1) + ((x >> 50) & 1) + ((x
        >> 51) & 1) + ((x >> 52) & 1) + ((x >> 53) & 1) + ((x >> 54) & 1) + ((x >> 55) & 1) + ((x
        >> 56) & 1) + ((x >> 57) & 1) + ((x >> 58) & 1) + ((x >> 59) & 1) + ((x >> 60) & 1) + ((x
        >> 61) & 1) + ((x >> 62) & 1) + ((x >> 63) & 1)
}

/// A word built from eight bytes weighs the sum of the byte weights.
proof fn lemma_bytes_pop_word(b0: u8, b1: u8, b2: u8, b3: u8, b4: u8, b5: u8, b6: u8, b7: u8)
    by (bit_vector)
    ensures
        pop_word(
            (b0 as u64) | ((b1 as u64) << 8) | ((b2 as u64) << 16) | ((b3 as u64) << 24) | ((
            b4 as u64) << 32) | ((b5 as u64) << 40) | ((b6 as u64) << 48) | ((b7 as u64) << 56),
        ) == pop_byte(b0) + pop_byte(b1) + pop_byte(b2) + pop_byte(b3) + pop_byte(b4) + pop_byte(
            b5,
        ) + pop_byte(b6) + pop_byte(b7),
{
}

/// Xor acts bytewise on words built from bytes.
proof fn lemma_bytes_xor_word(
    a0: u8,
    a1: u8,
    a2: u8,
    a3: u8,
    a4: u8,
    a5: u8,
    a6: u8,
    a7: u8,
    b0: u8,
    b1: u8,
    b2: u8,
    b3: u8,
    b4: u8,
    b5: u8,
    b6: u8,
    b7: u8,
)
    by (bit_vector)
    ensures
        (((a0 as u64) | ((a1 as u64) << 8) | ((a2 as u64) << 16) | ((a3 as u64) << 24) | ((
        a4 as u64) << 32) | ((a5 as u64) << 40) | ((a6 as u64) << 48) | ((a7 as u64) << 56)) ^ ((
        b0 as u64) | ((b1 as u64) << 8) | ((b2 as u64) << 16) | ((b3 as u64) << 24) | ((b4 as u64)
            << 32) | ((b5 as u64) << 40) | ((b6 as u64) << 48) | ((b7 as u64) << 56))) == (((
        a0 ^ b0) as u64) | (((a1 ^ b1) as u64) << 8) | (((a2 ^ b2) as u64) << 16) | (((a3
            ^ b3) as u64) << 24) | (((a4 ^ b4) as u64) << 32) | (((a5 ^ b5) as u64) << 40) | (((a6
            ^ b6) as u64) << 48) | (((a7 ^ b7) as u64) << 56)),
{
}

/// An eight-byte sequence weighs the sum of its byte weights.
proof fn lemma_popcount_len8(t: Seq<u8>)
    requires
        t.len() == 8,
    ensures
        popcount(t) == pop_byte(t[0]) + pop_byte(t[1]) + pop_byte(t[2]) + pop_byte(t[3])
            + pop_byte(t[4]) + pop_byte(t[5]) + pop_byte(t[6]) + pop_byte(t[7]),
{
    let t7 = t.drop_last();
    let t6 = t7.drop_last();
    let t5 = t6.drop_last();
    let t4 = t5.drop_last();
    let t3 = t4.drop_last();
    let t2 = t3.drop_last();
    let t1 = t2.drop_last();
    let t0 = t1.drop_last();
    assert(popcount(t) == popcount(t7) + pop_byte(t[7]));
    assert(popcount(t7) == popcount(t6) + pop_byte(t[6]));
    assert(popcount(t6) == popcount(t5) + pop_byte(t[5]));
    assert(popcount(t5) == popcount(t4) + pop_byte(t[4]));
    assert(popcount(t4) == popcount(t3) + pop_byte(t[3]));
    assert(popcount(t3) == popcount(t2) + pop_byte(t[2]));
    assert(popcount(t2) == popcount(t1) + pop_byte(t[1]));
    assert(popcount(t1) == popcount(t0) + pop_byte(t[0]));
    assert(popcount(t0) == 0);
}

/// The weight of eight consecutive bytes equals the weight of the word
/// they form.
pub proof fn lemma_popcount_word(s: Seq<u8>, p: int)
    requires
        0 <= p,
        p + 8 <= s.len(),
    ensures
        popcount(s.subrange(p, p + 8)) == pop_word(word_of(s, p)),
{
    let t = s.subrange(p, p + 8);
    lemma_popcount_len8(t);
    lemma_bytes_pop_word(t[0], t[1], t[2], t[3], t[4], t[5], t[6], t[7]);
    assert(word_of(s, p) == (t[0] as u64) | ((t[1] as u64) << 8) | ((t[2] as u64) << 16) | ((
    t[3] as u64) << 24) | ((t[4] as u64) << 32) | ((t[5] as u64) << 40) | ((t[6] as u64) << 48) | ((
    t[7] as u64) << 56));
}

/// Weight is additive over adjacent subranges.
pub proof fn lemma_popcount_split(s: Seq<u8>, a: int, b: int, c: int)
    requires
        0 <= a <= b <= c <= s.len(),
    ensures
        popcount(s.subrange(a, c)) == popcount(s.subrange(a, b)) + popcount(s.subrange(b, c)),
{
    assert(s.subrange(a, c) =~= s.subrange(a, b) + s.subrange(b, c));
    lemma_popcount_concat(s.subrange(a, b), s.subrange(b, c));
}

/// The total weight of `n` consecutive words of `s` starting at byte `i`.
pub open spec fn words_pop(s: Seq<u8>, i: int, n: int) -> int
    decreases n,
{
    if n <= 0 {
        0
    } else {
        words_pop(s, i, n - 1) + pop_word(word_of(s, i + 8 * (n - 1)))
    }
}

/// Summing word weights is the same as weighing the underlying bytes.
pub proof fn lemma_words_pop_is_popcount(s: Seq<u8>, i: int, n: int)
    requires
        0 <= i,
        0 <= n,
        i + 8 * n <= s.len(),
    ensures
        words_pop(s, i, n) == popcount(s.subrange(i, i + 8 * n)),
    decreases n,
{
    if n == 0 {
        assert(s.subrange(i, i).len() == 0);
    } else {
        lemma_words_pop_is_popcount(s, i, n - 1);
        lemma_popcount_split(s, i, i + 8 * (n - 1), i + 8 * n);
        lemma_popcount_word(s, i + 8 * (n - 1));
    }
}

/// The word read from the bytewise xor is the xor of the words.
pub proof fn lemma_word_of_xor(x: Seq<u8>, y: Seq<u8>, p: int)
    requires
        x.len() == y.len(),
        0 <= p,
        p + 8 <= x.len(),
    ensures
        word_of(xor_bytes(x, y), p) == word_of(x, p) ^ word_of(y, p),
{
    let u = xor_bytes(x, y);
    lemma_bytes_xor_word(
        x[p],
        x[p + 1],
        x[p + 2],
        x[p + 3],
        x[p + 4],
        x[p + 5],
        x[p + 6],
        x[p + 7],
        y[p],
        y[p + 1],
        y[p + 2],
        y[p + 3],
        y[p + 4],
        y[p + 5],
        y[p + 6],
        y[p + 7],
    );
    assert(u[p] == x[p] ^ y[p]);
    assert(u[p + 1] == x[p + 1] ^ y[p + 1]);
    assert(u[p + 2] == x[p + 2] ^ y[p + 2]);
    assert(u[p + 3] == x[p + 3] ^ y[p + 3]);
    assert(u[p + 4] == x[p + 4] ^ y[p + 4]);
    assert(u[p + 5] == x[p + 5] ^ y[p + 5]);
    assert(u[p + 6] == x[p + 6] ^ y[p + 6]);
    assert(u[p + 7] == x[p + 7] ^ y[p + 7]);
}

/// Restricting the bytewise xor restricts both operands.
pub proof fn lemma_xor_bytes_subrange(x: Seq<u8>, y: Seq<u8>, a: int, b: int)
    requires
        x.len() == y.len(),
        0 <= a <= b <= x.len(),
    ensures
        xor_bytes(x, y).subrange(a, b) =~= xor_bytes(x.subrange(a, b), y.subrange(a, b)),
{
}

/// Executable weight of one byte.
pub fn pop8(b: u8) -> (r: u8)
    ensures
        r as int == pop_byte(b),
        r <= 8,
{
    proof {
        assert((b & 1) <= 1 && ((b >> 1) & 1) <= 1 && ((b >> 2) & 1) <= 1 && ((b >> 3) & 1) <= 1
            && ((b >> 4) & 1) <= 1 && ((b >> 5) & 1) <= 1 && ((b >> 6) & 1) <= 1 && ((b >> 7) & 1)
            <= 1) by (bit_vector);
    }
    (b & 1) + ((b >> 1) & 1) + ((b >> 2) & 1) + ((b >> 3) & 1) + ((b >> 4) & 1) + ((b >> 5) & 1)
        + ((b >> 6) & 1) + ((b >> 7) & 1)
}

} // verus!

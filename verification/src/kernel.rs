//! The tree-merging bit-counting kernel: a branch-free SWAR reduction
//! that counts the 1-bits of a 240-byte block (thirty 64-bit words) in
//! ten three-word rounds.  Each round folds three words into 8-bit lane
//! counters inside one accumulator word; a final horizontal reduction
//! adds the lanes.  The per-lane bound of 24 new bits per round keeps
//! every lane below 256 over ten rounds, which is why the block holds
//! exactly thirty words.

use vstd::prelude::*;
use crate::bits::{pop_word, word_of, words_pop, popcount, lemma_words_pop_is_popcount,
    xor_bytes};

verus! {

pub(crate) const M1: u64 = 0x5555_5555_5555_5555;

pub(crate) const M2: u64 = 0x3333_3333_3333_3333;

pub(crate) const M4: u64 = 0x0f0f_0f0f_0f0f_0f0f;

pub(crate) const M8: u64 = 0x00ff_00ff_00ff_00ff;

/// The bits of `x` at even positions, summed.
spec fn even_bits_sum(x: u64) -> int {
    (x & 1) + ((x >> 2) & 1) + ((x >> 4) & 1) + ((x >> 6) & 1) + ((x >> 8) & 1) + ((x >> 10) & 1)
        + ((x >> 12) & 1) + ((x >> 14) & 1) + ((x >> 16) & 1) + ((x >> 18) & 1) + ((x >> 20) & 1)
        + ((x >> 22) & 1) + ((x >> 24) & 1) + ((x >> 26) & 1) + ((x >> 28) & 1) + ((x >> 30) & 1)
        + ((x >> 32) & 1) + ((x >> 34) & 1) + ((x >> 36) & 1) + ((x >> 38) & 1) + ((x >> 40) & 1)
        + ((x >> 42) & 1) + ((x >> 44) & 1) + ((x >> 46) & 1) + ((x >> 48) & 1) + ((x >> 50) & 1)
        + ((x >> 52) & 1) + ((x >> 54) & 1) + ((x >> 56) & 1) + ((x >> 58) & 1) + ((x >> 60) & 1)
        + ((x >> 62) & 1)
}

/// The bits of `x` at odd positions, summed.
spec fn odd_bits_sum(x: u64) -> int {
    ((x >> 1) & 1) + ((x >> 3) & 1) + ((x >> 5) & 1) + ((x >> 7) & 1) + ((x >> 9) & 1) + ((x >> 11)
        & 1) + ((x >> 13) & 1) + ((x >> 15) & 1) + ((x >> 17) & 1) + ((x >> 19) & 1) + ((x >> 21)
        & 1) + ((x >> 23) & 1) + ((x >> 25) & 1) + ((x >> 27) & 1) + ((x >> 29) & 1) + ((x >> 31)
        & 1) + ((x >> 33) & 1) + ((x >> 35) & 1) + ((x >> 37) & 1) + ((x >> 39) & 1) + ((x >> 41)
        & 1) + ((x >> 43) & 1) + ((x >> 45) & 1) + ((x >> 47) & 1) + ((x >> 49) & 1) + ((x >> 51)
        & 1) + ((x >> 53) & 1) + ((x >> 55) & 1) + ((x >> 57) & 1) + ((x >> 59) & 1) + ((x >> 61)
        & 1) + ((x >> 63) & 1)
}

/// The thirty-two 2-bit lanes of `x`, summed.
spec fn lane_sum2(x: u64) -> int {
    (x & 3) + ((x >> 2) & 3) + ((x >> 4) & 3) + ((x >> 6) & 3) + ((x >> 8) & 3) + ((x >> 10) & 3)
        + ((x >> 12) & 3) + ((x >> 14) & 3) + ((x >> 16) & 3) + ((x >> 18) & 3) + ((x >> 20) & 3)
        + ((x >> 22) & 3) + ((x >> 24) & 3) + ((x >> 26) & 3) + ((x >> 28) & 3) + ((x >> 30) & 3)
        + ((x >> 32) & 3) + ((x >> 34) & 3) + ((x >> 36) & 3) + ((x >> 38) & 3) + ((x >> 40) & 3)
        + ((x >> 42) & 3) + ((x >> 44) & 3) + ((x >> 46) & 3) + ((x >> 48) & 3) + ((x >> 50) & 3)
        + ((x >> 52) & 3) + ((x >> 54) & 3) + ((x >> 56) & 3) + ((x >> 58) & 3) + ((x >> 60) & 3)
        + ((x >> 62) & 3)
}

/// The sixteen 4-bit lanes of `x`, summed.
spec fn lane_sum4(x: u64) -> int {
    (x & 0xf) + ((x >> 4) & 0xf) + ((x >> 8) & 0xf) + ((x >> 12) & 0xf) + ((x >> 16) & 0xf) + ((x
        >> 20) & 0xf) + ((x >> 24) & 0xf) + ((x >> 28) & 0xf) + ((x >> 32) & 0xf) + ((x >> 36)
        & 0xf) + ((x >> 40) & 0xf) + ((x >> 44) & 0xf) + ((x >> 48) & 0xf) + ((x >> 52) & 0xf) + ((
    x >> 56) & 0xf) + ((x >> 60) & 0xf)
}

/// The eight 8-bit lanes of `x`, summed.
pub(crate) open spec fn lane_sum8(x: u64) -> int {
    (x & 0xff) + ((x >> 8) & 0xff) + ((x >> 16) & 0xff) + ((x >> 24) & 0xff) + ((x >> 32) & 0xff)
        + ((x >> 40) & 0xff) + ((x >> 48) & 0xff) + ((x >> 56) & 0xff)
}

/// Every 4-bit lane of `x` is at most `m`.
spec fn lanes4_le(x: u64, m: u64) -> bool {
    (x & 0xf) <= m && ((x >> 4) & 0xf) <= m && ((x >> 8) & 0xf) <= m && ((x >> 12) & 0xf) <= m && ((
    x >> 16) & 0xf) <= m && ((x >> 20) & 0xf) <= m && ((x >> 24) & 0xf) <= m && ((x >> 28) & 0xf)
        <= m && ((x >> 32) & 0xf) <= m && ((x >> 36) & 0xf) <= m && ((x >> 40) & 0xf) <= m && ((x
        >> 44) & 0xf) <= m && ((x >> 48) & 0xf) <= m && ((x >> 52) & 0xf) <= m && ((x >> 56) & 0xf)
        <= m && ((x >> 60) & 0xf) <= m
}

/// Every 8-bit lane of `x` is at most `m`.
pub(crate) open spec fn lanes8_le(x: u64, m: u64) -> bool {
    (x & 0xff) <= m && ((x >> 8) & 0xff) <= m && ((x >> 16) & 0xff) <= m && ((x >> 24) & 0xff) <= m
        && ((x >> 32) & 0xff) <= m && ((x >> 40) & 0xff) <= m && ((x >> 48) & 0xff) <= m && ((x
        >> 56) & 0xff) <= m
}

/// One tree-merging round: fold the words `a`, `b`, `c` into the 8-bit
/// lane counters of `acc`.  Each round adds at most 24 to every lane, so
/// with the ghost lane bound `k` at most 216 nothing can carry between
/// lanes.  The bit-vector assertions state each lane separately; the
/// lane sums are then related by linear arithmetic.
#[verifier::rlimit(100)]
fn fold3(acc: u64, a: u64, b: u64, c: u64, Ghost(k): Ghost<u64>) -> (r: u64)
    requires
        k <= 216,
        lanes8_le(acc, k),
    ensures
        lane_sum8(r) == lane_sum8(acc) + pop_word(a) + pop_word(b) + pop_word(c),
        lanes8_le(r, (k + 24) as u64),
{
    proof {
        assert(((a >> 1) & M1) <= a && ((b >> 1) & M1) <= b) by (bit_vector);
    }
    let count1 = a - ((a >> 1) & M1);
    let count2 = b - ((b >> 1) & M1);
    let half1 = c & M1;
    let half2 = (c >> 1) & M1;
    proof {
        assert(count1 == (a & M1) + ((a >> 1) & M1) && count2 == (b & M1) + ((b >> 1) & M1))
            by (bit_vector)
            requires
                count1 == a - ((a >> 1) & M1),
                count2 == b - ((b >> 1) & M1),
        ;
        assert(count1 + half1 <= 0xffff_ffff_ffff_ffff && count2 + half2 <= 0xffff_ffff_ffff_ffff)
            by (bit_vector)
            requires
                count1 == (a & M1) + ((a >> 1) & M1),
                count2 == (b & M1) + ((b >> 1) & M1),
                half1 == c & M1,
                half2 == (c >> 1) & M1,
        ;
    }
    let s1 = count1 + half1;
    let s2 = count2 + half2;
    proof {
        assert((s1 & 3) == (a & 1) + ((a >> 1) & 1) + (c & 1)
            && ((s1 >> 2) & 3) == ((a >> 2) & 1) + ((a >> 3) & 1) + ((c >> 2) & 1)
            && ((s1 >> 4) & 3) == ((a >> 4) & 1) + ((a >> 5) & 1) + ((c >> 4) & 1)
            && ((s1 >> 6) & 3) == ((a >> 6) & 1) + ((a >> 7) & 1) + ((c >> 6) & 1)
            && ((s1 >> 8) & 3) == ((a >> 8) & 1) + ((a >> 9) & 1) + ((c >> 8) & 1)
            && ((s1 >> 10) & 3) == ((a >> 10) & 1) + ((a >> 11) & 1) + ((c >> 10) & 1)
            && ((s1 >> 12) & 3) == ((a >> 12) & 1) + ((a >> 13) & 1) + ((c >> 12) & 1)
            && ((s1 >> 14) & 3) == ((a >> 14) & 1) + ((a >> 15) & 1) + ((c >> 14) & 1)
            && ((s1 >> 16) & 3) == ((a >> 16) & 1) + ((a >> 17) & 1) + ((c >> 16) & 1)
            && ((s1 >> 18) & 3) == ((a >> 18) & 1) + ((a >> 19) & 1) + ((c >> 18) & 1)
            && ((s1 >> 20) & 3) == ((a >> 20) & 1) + ((a >> 21) & 1) + ((c >> 20) & 1)
            && ((s1 >> 22) & 3) == ((a >> 22) & 1) + ((a >> 23) & 1) + ((c >> 22) & 1)
            && ((s1 >> 24) & 3) == ((a >> 24) & 1) + ((a >> 25) & 1) + ((c >> 24) & 1)
            && ((s1 >> 26) & 3) == ((a >> 26) & 1) + ((a >> 27) & 1) + ((c >> 26) & 1)
            && ((s1 >> 28) & 3) == ((a >> 28) & 1) + ((a >> 29) & 1) + ((c >> 28) & 1)
            && ((s1 >> 30) & 3) == ((a >> 30) & 1) + ((a >> 31) & 1) + ((c >> 30) & 1)
            && ((s1 >> 32) & 3) == ((a >> 32) & 1) + ((a >> 33) & 1) + ((c >> 32) & 1)
            && ((s1 >> 34) & 3) == ((a >> 34) & 1) + ((a >> 35) & 1) + ((c >> 34) & 1)
            && ((s1 >> 36) & 3) == ((a >> 36) & 1) + ((a >> 37) & 1) + ((c >> 36) & 1)
            && ((s1 >> 38) & 3) == ((a >> 38) & 1) + ((a >> 39) & 1) + ((c >> 38) & 1)
            && ((s1 >> 40) & 3) == ((a >> 40) & 1) + ((a >> 41) & 1) + ((c >> 40) & 1)
            && ((s1 >> 42) & 3) == ((a >> 42) & 1) + ((a >> 43) & 1) + ((c >> 42) & 1)
            && ((s1 >> 44) & 3) == ((a >> 44) & 1) + ((a >> 45) & 1) + ((c >> 44) & 1)
            && ((s1 >> 46) & 3) == ((a >> 46) & 1) + ((a >> 47) & 1) + ((c >> 46) & 1)
            && ((s1 >> 48) & 3) == ((a >> 48) & 1) + ((a >> 49) & 1) + ((c >> 48) & 1)
            && ((s1 >> 50) & 3) == ((a >> 50) & 1) + ((a >> 51) & 1) + ((c >> 50) & 1)
            && ((s1 >> 52) & 3) == ((a >> 52) & 1) + ((a >> 53) & 1) + ((c >> 52) & 1)
            && ((s1 >> 54) & 3) == ((a >> 54) & 1) + ((a >> 55) & 1) + ((c >> 54) & 1)
            && ((s1 >> 56) & 3) == ((a >> 56) & 1) + ((a >> 57) & 1) + ((c >> 56) & 1)
            && ((s1 >> 58) & 3) == ((a >> 58) & 1) + ((a >> 59) & 1) + ((c >> 58) & 1)
            && ((s1 >> 60) & 3) == ((a >> 60) & 1) + ((a >> 61) & 1) + ((c >> 60) & 1)
            && ((s1 >> 62) & 3) == ((a >> 62) & 1) + ((a >> 63) & 1) + ((c >> 62) & 1)) by (bit_vector)
            requires
                s1 == (a & M1) + ((a >> 1) & M1) + (c & M1),
        ;
        assert((s2 & 3) == (b & 1) + ((b >> 1) & 1) + ((c >> 1) & 1)
            && ((s2 >> 2) & 3) == ((b >> 2) & 1) + ((b >> 3) & 1) + ((c >> 3) & 1)
            && ((s2 >> 4) & 3) == ((b >> 4) & 1) + ((b >> 5) & 1) + ((c >> 5) & 1)
            && ((s2 >> 6) & 3) == ((b >> 6) & 1) + ((b >> 7) & 1) + ((c >> 7) & 1)
            && ((s2 >> 8) & 3) == ((b >> 8) & 1) + ((b >> 9) & 1) + ((c >> 9) & 1)
            && ((s2 >> 10) & 3) == ((b >> 10) & 1) + ((b >> 11) & 1) + ((c >> 11) & 1)
            && ((s2 >> 12) & 3) == ((b >> 12) & 1) + ((b >> 13) & 1) + ((c >> 13) & 1)
            && ((s2 >> 14) & 3) == ((b >> 14) & 1) + ((b >> 15) & 1) + ((c >> 15) & 1)
            && ((s2 >> 16) & 3) == ((b >> 16) & 1) + ((b >> 17) & 1) + ((c >> 17) & 1)
            && ((s2 >> 18) & 3) == ((b >> 18) & 1) + ((b >> 19) & 1) + ((c >> 19) & 1)
            && ((s2 >> 20) & 3) == ((b >> 20) & 1) + ((b >> 21) & 1) + ((c >> 21) & 1)
            && ((s2 >> 22) & 3) == ((b >> 22) & 1) + ((b >> 23) & 1) + ((c >> 23) & 1)
            && ((s2 >> 24) & 3) == ((b >> 24) & 1) + ((b >> 25) & 1) + ((c >> 25) & 1)
            && ((s2 >> 26) & 3) == ((b >> 26) & 1) + ((b >> 27) & 1) + ((c >> 27) & 1)
            && ((s2 >> 28) & 3) == ((b >> 28) & 1) + ((b >> 29) & 1) + ((c >> 29) & 1)
            && ((s2 >> 30) & 3) == ((b >> 30) & 1) + ((b >> 31) & 1) + ((c >> 31) & 1)
            && ((s2 >> 32) & 3) == ((b >> 32) & 1) + ((b >> 33) & 1) + ((c >> 33) & 1)
            && ((s2 >> 34) & 3) == ((b >> 34) & 1) + ((b >> 35) & 1) + ((c >> 35) & 1)
            && ((s2 >> 36) & 3) == ((b >> 36) & 1) + ((b >> 37) & 1) + ((c >> 37) & 1)
            && ((s2 >> 38) & 3) == ((b >> 38) & 1) + ((b >> 39) & 1) + ((c >> 39) & 1)
            && ((s2 >> 40) & 3) == ((b >> 40) & 1) + ((b >> 41) & 1) + ((c >> 41) & 1)
            && ((s2 >> 42) & 3) == ((b >> 42) & 1) + ((b >> 43) & 1) + ((c >> 43) & 1)
            && ((s2 >> 44) & 3) == ((b >> 44) & 1) + ((b >> 45) & 1) + ((c >> 45) & 1)
            && ((s2 >> 46) & 3) == ((b >> 46) & 1) + ((b >> 47) & 1) + ((c >> 47) & 1)
            && ((s2 >> 48) & 3) == ((b >> 48) & 1) + ((b >> 49) & 1) + ((c >> 49) & 1)
            && ((s2 >> 50) & 3) == ((b >> 50) & 1) + ((b >> 51) & 1) + ((c >> 51) & 1)
            && ((s2 >> 52) & 3) == ((b >> 52) & 1) + ((b >> 53) & 1) + ((c >> 53) & 1)
            && ((s2 >> 54) & 3) == ((b >> 54) & 1) + ((b >> 55) & 1) + ((c >> 55) & 1)
            && ((s2 >> 56) & 3) == ((b >> 56) & 1) + ((b >> 57) & 1) + ((c >> 57) & 1)
            && ((s2 >> 58) & 3) == ((b >> 58) & 1) + ((b >> 59) & 1) + ((c >> 59) & 1)
            && ((s2 >> 60) & 3) == ((b >> 60) & 1) + ((b >> 61) & 1) + ((c >> 61) & 1)
            && ((s2 >> 62) & 3) == ((b >> 62) & 1) + ((b >> 63) & 1) + ((c >> 63) & 1)) by (bit_vector)
            requires
                s2 == (b & M1) + ((b >> 1) & M1) + ((c >> 1) & M1),
        ;
        assert(lane_sum2(s1) == pop_word(a) + even_bits_sum(c));
        assert(lane_sum2(s2) == pop_word(b) + odd_bits_sum(c));
        assert(even_bits_sum(c) + odd_bits_sum(c) == pop_word(c));
        assert((s1 & M2) + ((s1 >> 2) & M2) + (s2 & M2) + ((s2 >> 2) & M2)
            <= 0xffff_ffff_ffff_ffff) by (bit_vector);
    }
    let t = (s1 & M2) + ((s1 >> 2) & M2) + (s2 & M2) + ((s2 >> 2) & M2);
    proof {
        assert((t & 0xf) == (s1 & 3) + ((s1 >> 2) & 3) + (s2 & 3) + ((s2 >> 2) & 3) && (t & 0xf) <= 12
            && ((t >> 4) & 0xf) == ((s1 >> 4) & 3) + ((s1 >> 6) & 3) + ((s2 >> 4) & 3) + ((s2 >> 6) & 3) && ((t >> 4) & 0xf) <= 12
            && ((t >> 8) & 0xf) == ((s1 >> 8) & 3) + ((s1 >> 10) & 3) + ((s2 >> 8) & 3) + ((s2 >> 10) & 3) && ((t >> 8) & 0xf) <= 12
            && ((t >> 12) & 0xf) == ((s1 >> 12) & 3) + ((s1 >> 14) & 3) + ((s2 >> 12) & 3) + ((s2 >> 14) & 3) && ((t >> 12) & 0xf) <= 12
            && ((t >> 16) & 0xf) == ((s1 >> 16) & 3) + ((s1 >> 18) & 3) + ((s2 >> 16) & 3) + ((s2 >> 18) & 3) && ((t >> 16) & 0xf) <= 12
            && ((t >> 20) & 0xf) == ((s1 >> 20) & 3) + ((s1 >> 22) & 3) + ((s2 >> 20) & 3) + ((s2 >> 22) & 3) && ((t >> 20) & 0xf) <= 12
            && ((t >> 24) & 0xf) == ((s1 >> 24) & 3) + ((s1 >> 26) & 3) + ((s2 >> 24) & 3) + ((s2 >> 26) & 3) && ((t >> 24) & 0xf) <= 12
            && ((t >> 28) & 0xf) == ((s1 >> 28) & 3) + ((s1 >> 30) & 3) + ((s2 >> 28) & 3) + ((s2 >> 30) & 3) && ((t >> 28) & 0xf) <= 12
            && ((t >> 32) & 0xf) == ((s1 >> 32) & 3) + ((s1 >> 34) & 3) + ((s2 >> 32) & 3) + ((s2 >> 34) & 3) && ((t >> 32) & 0xf) <= 12
            && ((t >> 36) & 0xf) == ((s1 >> 36) & 3) + ((s1 >> 38) & 3) + ((s2 >> 36) & 3) + ((s2 >> 38) & 3) && ((t >> 36) & 0xf) <= 12
            && ((t >> 40) & 0xf) == ((s1 >> 40) & 3) + ((s1 >> 42) & 3) + ((s2 >> 40) & 3) + ((s2 >> 42) & 3) && ((t >> 40) & 0xf) <= 12
            && ((t >> 44) & 0xf) == ((s1 >> 44) & 3) + ((s1 >> 46) & 3) + ((s2 >> 44) & 3) + ((s2 >> 46) & 3) && ((t >> 44) & 0xf) <= 12
            && ((t >> 48) & 0xf) == ((s1 >> 48) & 3) + ((s1 >> 50) & 3) + ((s2 >> 48) & 3) + ((s2 >> 50) & 3) && ((t >> 48) & 0xf) <= 12
            && ((t >> 52) & 0xf) == ((s1 >> 52) & 3) + ((s1 >> 54) & 3) + ((s2 >> 52) & 3) + ((s2 >> 54) & 3) && ((t >> 52) & 0xf) <= 12
            && ((t >> 56) & 0xf) == ((s1 >> 56) & 3) + ((s1 >> 58) & 3) + ((s2 >> 56) & 3) + ((s2 >> 58) & 3) && ((t >> 56) & 0xf) <= 12
            && ((t >> 60) & 0xf) == ((s1 >> 60) & 3) + ((s1 >> 62) & 3) + ((s2 >> 60) & 3) + ((s2 >> 62) & 3) && ((t >> 60) & 0xf) <= 12) by (bit_vector)
            requires
                t == (s1 & M2) + ((s1 >> 2) & M2) + (s2 & M2) + ((s2 >> 2) & M2),
        ;
        assert(lane_sum4(t) == lane_sum2(s1) + lane_sum2(s2));
        assert(lanes4_le(t, 12));
        assert((t & M4) + ((t >> 4) & M4) <= 0xffff_ffff_ffff_ffff) by (bit_vector);
    }
    let f = (t & M4) + ((t >> 4) & M4);
    proof {
        assert(lane_sum8(f) == lane_sum4(t) && lanes8_le(f, 24)) by (bit_vector)
            requires
                f == (t & M4) + ((t >> 4) & M4),
                lanes4_le(t, 12),
        ;
        assert(acc + f <= 0xffff_ffff_ffff_ffff) by (bit_vector)
            requires
                lanes8_le(acc, k),
                lanes8_le(f, 24),
                k <= 216,
        ;
    }
    let r = acc + f;
    proof {
        assert((r & 0xff) == (acc & 0xff) + (f & 0xff)
            && ((r >> 8) & 0xff) == ((acc >> 8) & 0xff) + ((f >> 8) & 0xff)
            && ((r >> 16) & 0xff) == ((acc >> 16) & 0xff) + ((f >> 16) & 0xff)
            && ((r >> 24) & 0xff) == ((acc >> 24) & 0xff) + ((f >> 24) & 0xff)
            && ((r >> 32) & 0xff) == ((acc >> 32) & 0xff) + ((f >> 32) & 0xff)
            && ((r >> 40) & 0xff) == ((acc >> 40) & 0xff) + ((f >> 40) & 0xff)
            && ((r >> 48) & 0xff) == ((acc >> 48) & 0xff) + ((f >> 48) & 0xff)
            && ((r >> 56) & 0xff) == ((acc >> 56) & 0xff) + ((f >> 56) & 0xff)) by (bit_vector)
            requires
                r == acc + f,
                lanes8_le(acc, k),
                lanes8_le(f, 24),
                k <= 216,
        ;
        assert(lane_sum8(r) == lane_sum8(acc) + lane_sum8(f));
        assert(lanes8_le(r, (k + 24) as u64));
    }
    r
}

/// Horizontal reduction: add the eight 8-bit lanes of `acc` into one
/// total, by widening the lanes to 16 bits and twice halving the word.
fn horizontal_sum(acc: u64) -> (r: u64)
    requires
        lanes8_le(acc, 240),
    ensures
        r as int == lane_sum8(acc),
        r <= 1920,
{
    proof {
        assert((acc & M8) + ((acc >> 8) & M8) <= 0xffff_ffff_ffff_ffff) by (bit_vector);
    }
    let a1 = (acc & M8) + ((acc >> 8) & M8);
    proof {
        assert(a1 + (a1 >> 16) <= 0xffff_ffff_ffff_ffff) by (bit_vector)
            requires
                a1 == (acc & M8) + ((acc >> 8) & M8),
        ;
    }
    let a2 = a1 + (a1 >> 16);
    proof {
        assert(a2 + (a2 >> 32) <= 0xffff_ffff_ffff_ffff) by (bit_vector)
            requires
                a2 == a1 + (a1 >> 16),
                a1 == (acc & M8) + ((acc >> 8) & M8),
        ;
    }
    let a3 = a2 + (a2 >> 32);
    let r = a3 & 0xffff;
    proof {
        assert(r as int == lane_sum8(acc) && r <= 1920) by (bit_vector)
            requires
                r == a3 & 0xffff,
                a3 == a2 + (a2 >> 32),
                a2 == a1 + (a1 >> 16),
                a1 == (acc & M8) + ((acc >> 8) & M8),
                lanes8_le(acc, 240),
        ;
    }
    r
}

/// Reads the eight bytes of `x` at `i` as one little-endian word.
fn load_word(x: &[u8], i: usize) -> (r: u64)
    requires
        i + 8 <= x@.len(),
    ensures
        r == word_of(x@, i as int),
{
    (x[i] as u64) | ((x[i + 1] as u64) << 8) | ((x[i + 2] as u64) << 16) | ((x[i + 3] as u64)
        << 24) | ((x[i + 4] as u64) << 32) | ((x[i + 5] as u64) << 40) | ((x[i + 6] as u64) << 48)
        | ((x[i + 7] as u64) << 56)
}

/// Weight of the 240-byte block of `x` starting at `start`: ten
/// tree-merging rounds over thirty words, then the horizontal reduction.
#[verifier::rlimit(100)]
pub(crate) fn block_weight(x: &[u8], start: usize) -> (r: u64)
    requires
        start + 240 <= x@.len(),
    ensures
        r as int == popcount(x@.subrange(start as int, start as int + 240)),
        r <= 1920,
{
    proof {
        assert(lanes8_le(0u64, 0) && lane_sum8(0u64) == 0) by (bit_vector);
    }
    let xlen = x.len();
    let mut acc: u64 = 0;
    let mut j: usize = 0;
    while j < 10
        invariant
            xlen == x@.len(),
            start + 240 <= x@.len(),
            j <= 10,
            lanes8_le(acc, (24 * j) as u64),
            lane_sum8(acc) == words_pop(x@, start as int, 3 * j as int),
        decreases 10 - j,
    {
        let w0 = load_word(x, start + 24 * j);
        let w1 = load_word(x, start + 24 * j + 8);
        let w2 = load_word(x, start + 24 * j + 16);
        proof {
            let s = x@;
            let i = start as int;
            let n = 3 * j as int;
            assert(words_pop(s, i, n + 1) == words_pop(s, i, n) + pop_word(word_of(s, i + 8 * n)));
            assert(words_pop(s, i, n + 2) == words_pop(s, i, n + 1) + pop_word(
                word_of(s, i + 8 * (n + 1)),
            ));
            assert(words_pop(s, i, n + 3) == words_pop(s, i, n + 2) + pop_word(
                word_of(s, i + 8 * (n + 2)),
            ));
        }
        acc = fold3(acc, w0, w1, w2, Ghost((24 * j) as u64));
        j += 1;
    }
    proof {
        lemma_words_pop_is_popcount(x@, start as int, 30);
    }
    horizontal_sum(acc)
}

/// Distance contributed by the 240-byte blocks of `x` and `y` starting
/// at `start`: the same rounds, over the xor of each pair of words.
#[verifier::rlimit(100)]
pub(crate) fn block_distance(x: &[u8], y: &[u8], start: usize) -> (r: u64)
    requires
        x@.len() == y@.len(),
        start + 240 <= x@.len(),
    ensures
        r as int == popcount(xor_bytes(x@, y@).subrange(start as int, start as int + 240)),
        r <= 1920,
{
    let ghost u = xor_bytes(x@, y@);
    proof {
        assert(lanes8_le(0u64, 0) && lane_sum8(0u64) == 0) by (bit_vector);
    }
    let xlen = x.len();
    let mut acc: u64 = 0;
    let mut j: usize = 0;
    while j < 10
        invariant
            xlen == x@.len(),
            x@.len() == y@.len(),
            start + 240 <= x@.len(),
            u == xor_bytes(x@, y@),
            j <= 10,
            lanes8_le(acc, (24 * j) as u64),
            lane_sum8(acc) == words_pop(u, start as int, 3 * j as int),
        decreases 10 - j,
    {
        let w0 = load_word(x, start + 24 * j) ^ load_word(y, start + 24 * j);
        let w1 = load_word(x, start + 24 * j + 8) ^ load_word(y, start + 24 * j + 8);
        let w2 = load_word(x, start + 24 * j + 16) ^ load_word(y, start + 24 * j + 16);
        proof {
            let i = start as int;
            let n = 3 * j as int;
            crate::bits::lemma_word_of_xor(x@, y@, i + 8 * n);
            crate::bits::lemma_word_of_xor(x@, y@, i + 8 * (n + 1));
            crate::bits::lemma_word_of_xor(x@, y@, i + 8 * (n + 2));
            assert(words_pop(u, i, n + 1) == words_pop(u, i, n) + pop_word(word_of(u, i + 8 * n)));
            assert(words_pop(u, i, n + 2) == words_pop(u, i, n + 1) + pop_word(
                word_of(u, i + 8 * (n + 1)),
            ));
            assert(words_pop(u, i, n + 3) == words_pop(u, i, n + 2) + pop_word(
                word_of(u, i + 8 * (n + 2)),
            ));
        }
        acc = fold3(acc, w0, w1, w2, Ghost((24 * j) as u64));
        j += 1;
    }
    proof {
        lemma_words_pop_is_popcount(u, start as int, 30);
    }
    horizontal_sum(acc)
}

} // verus!

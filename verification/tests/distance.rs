//! The distance functions: the scalar count on known pairs, the fast
//! path against the scalar one on random inputs, the total version over
//! every small length and pair of offsets, and one large input.

use quickcheck as qc;

fn distance_fast_prop(v: Vec<u8>, w: Vec<u8>, misalign: u8) -> qc::TestResult {
    let l = std::cmp::min(v.len(), w.len());
    if l < misalign as usize {
        return qc::TestResult::discard();
    }

    let x = &v[misalign as usize..l];
    let y = &w[misalign as usize..l];
    qc::TestResult::from_bool(
        hamming::distance_fast(x, y).unwrap() == hamming::distance_::naive(x, y),
    )
}

#[test]
fn distance__naive_smoke() {
    let tests: &[(&[u8], &[u8], u64)] = &[
        (&[], &[], 0),
        (&[0], &[0], 0),
        (&[0], &[0xFF], 8),
        (&[0b10101010], &[0b01010101], 8),
        (&[0b11111010], &[0b11110101], 4),
        (&[0; 10], &[0; 10], 0),
        (&[0xFF; 10], &[0x0F; 10], 4 * 10),
        (&[0x3B; 10000], &[0x3B; 10000], 0),
        (&[0x77; 10000], &[0x3B; 10000], 3 * 10000),
    ];
    for &(x, y, expected) in tests {
        assert_eq!(hamming::distance_::naive(x, y), expected);
    }
}

#[test]
fn distance_fast_qc() {
    qc::QuickCheck::new()
        .gen(qc::StdGen::new(rand::thread_rng(), 10_000))
        .quickcheck(distance_fast_prop as fn(Vec<u8>, Vec<u8>, u8) -> qc::TestResult);
}

#[test]
fn distance_fast_smoke_huge() {
    let v = vec![0b1001_1101; 10234567];
    let w = vec![0b1111_1111; v.len()];

    assert_eq!(hamming::distance_fast(&v, &v).unwrap(), 0);
    assert_eq!(hamming::distance_fast(&v, &w).unwrap(), 3 * w.len() as u64);
}

#[test]
fn distance_smoke() {
    let v = vec![0; 10000];
    let w = vec![0xFF; v.len()];
    for len_ in 0..99 {
        let len = len_ * 10;
        for i in 0..8 {
            for j in 0..8 {
                assert_eq!(hamming::distance(&v[i..i + len], &w[j..j + len]), len as u64 * 8)
            }
        }
    }
}

#[test]
fn distance_small_scenario() {
    assert_eq!(hamming::distance(&[0x01, 0xFF], &[0xFF, 0x01]), 14);
}

#[test]
fn distance_fast_alignment() {
    let x = vec![0xFFu8; 1000];
    let y = vec![0u8; 1000];
    assert_eq!(hamming::distance_fast(&x, &y), Ok(8 * 1000));
    // same alignment, but moderately complicated
    assert_eq!(hamming::distance_fast(&x[1..1000 - 8], &y[8 + 1..]), Ok(8 * (1000 - 8 - 1)));
    // differing alignments: the fast path declines, the total version
    // still returns the scalar result
    assert!(hamming::distance_fast(&x[1..999], &y[0..998]).is_err());
    assert_eq!(hamming::distance(&x[1..999], &y[0..998]), 8 * 998);
    assert_eq!(
        hamming::distance(&x[1..999], &y[0..998]),
        hamming::distance_::naive(&x[1..999], &y[0..998])
    );
}

#[test]
fn distance_symmetric_concrete() {
    let x: Vec<u8> = (0..=255u8).cycle().take(1234).collect();
    let y: Vec<u8> = (0..=255u8).rev().cycle().take(1234).collect();
    assert_eq!(hamming::distance(&x, &y), hamming::distance(&y, &x));
}

//! The weight functions: the scalar count on known values, the fast
//! path against the scalar one on random inputs at every misalignment,
//! and one large input.

use quickcheck as qc;

fn weight_prop(v: Vec<u8>, misalign: u8) -> qc::TestResult {
    let misalign = misalign as usize % 16;
    if misalign > v.len() {
        return qc::TestResult::discard();
    }
    let data = &v[misalign..];
    qc::TestResult::from_bool(hamming::weight(data) == hamming::weight_::naive(data))
}

#[test]
fn weight__naive_smoke() {
    let tests = [
        (&[0u8] as &[u8], 0),
        (&[1], 1),
        (&[0xFF], 8),
        (&[0xFF; 10], 8 * 10),
        (&[1; 1000], 1000),
    ];
    for &(v, expected) in &tests {
        assert_eq!(hamming::weight_::naive(v), expected);
    }
}

#[test]
fn weight_qc() {
    qc::QuickCheck::new()
        .gen(qc::StdGen::new(rand::thread_rng(), 10_000))
        .quickcheck(weight_prop as fn(Vec<u8>, u8) -> qc::TestResult);
}

#[test]
fn weight_huge() {
    let v = vec![0b1001_1101; 10234567];
    assert_eq!(hamming::weight(&v), v[0].count_ones() as u64 * v.len() as u64);
}

#[test]
fn weight_small_scenario() {
    assert_eq!(hamming::weight(&[0x01, 0xFF, 0x01, 0xFF]), 18);
}

#[test]
fn weight_all_zero_and_all_ones() {
    for n in [0usize, 1, 7, 8, 239, 240, 241, 1000] {
        let zeros = vec![0u8; n];
        let ones = vec![0xFFu8; n];
        assert_eq!(hamming::weight(&zeros), 0);
        assert_eq!(hamming::weight(&ones), 8 * n as u64);
    }
}

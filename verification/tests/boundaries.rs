//! Boundary coverage: lengths around one 240-byte block, at every
//! possible alignment shift, where the head/middle/tail partition
//! changes shape.

fn patterned(n: usize) -> Vec<u8> {
    (0..n).map(|i| (i as u8).wrapping_mul(37).wrapping_add(11)).collect()
}

#[test]
fn weight_boundary_lengths_and_shifts() {
    let buf = patterned(8 + 241);
    for shift in 0..8 {
        for len in [0usize, 1, 239, 240, 241] {
            let data = &buf[shift..shift + len];
            assert_eq!(hamming::weight(data), hamming::weight_::naive(data));
        }
    }
}

#[test]
fn distance_boundary_lengths_and_shifts() {
    let a = patterned(8 + 241);
    let b: Vec<u8> = patterned(8 + 241).iter().map(|v| v.wrapping_add(0x5A)).collect();
    for shift_a in 0..8 {
        for shift_b in 0..8 {
            for len in [0usize, 1, 239, 240, 241] {
                let x = &a[shift_a..shift_a + len];
                let y = &b[shift_b..shift_b + len];
                let expected = hamming::distance_::naive(x, y);
                assert_eq!(hamming::distance(x, y), expected);
                if let Ok(fast) = hamming::distance_fast(x, y) {
                    assert_eq!(fast, expected);
                }
            }
        }
    }
}

#[test]
fn distance_fast_same_shift_succeeds() {
    let a = patterned(8 + 500);
    let b: Vec<u8> = patterned(8 + 500).iter().map(|v| v.wrapping_add(1)).collect();
    for shift in 0..8 {
        let x = &a[shift..shift + 480];
        let y = &b[shift..shift + 480];
        let r = hamming::distance_fast(x, y);
        assert_eq!(r, Ok(hamming::distance_::naive(x, y)));
    }
}

//! The offset-explicit splitter and fast path, which are deterministic:
//! the partition and the success condition depend only on the lengths
//! and the given shifts.

fn patterned(n: usize) -> Vec<u8> {
    (0..n).map(|i| (i as u8).wrapping_mul(73).wrapping_add(5)).collect()
}

#[test]
fn split_at_offset_partition() {
    let buf = patterned(1000);
    for off in 0..8 {
        let (head, middle, tail) = hamming::util::split_at_offset(&buf, 240, 8, off);
        assert_eq!(head.len(), off);
        assert_eq!(middle.len(), (1000 - off) / 240 * 240);
        assert_eq!(head.len() + middle.len() + tail.len(), 1000);
        let mut rebuilt = Vec::new();
        rebuilt.extend_from_slice(head);
        rebuilt.extend_from_slice(middle);
        rebuilt.extend_from_slice(tail);
        assert_eq!(rebuilt, buf);
    }
}

#[test]
fn split_at_offset_whole_head() {
    let buf = patterned(100);
    // too short for one block: everything is head, whatever the shift
    for off in [0usize, 3, 7, 8, 50, 1000] {
        let (head, middle, tail) = hamming::util::split_at_offset(&buf, 240, 8, off);
        assert_eq!(head, buf.as_slice());
        assert!(middle.is_empty());
        assert!(tail.is_empty());
    }
    // a shift of align or more is treated as "no aligned region"
    let long = patterned(1000);
    let (head, middle, tail) = hamming::util::split_at_offset(&long, 240, 8, 8);
    assert_eq!(head, long.as_slice());
    assert!(middle.is_empty());
    assert!(tail.is_empty());
}

#[test]
fn distance_with_offsets_success_condition() {
    let a = patterned(1000);
    let b: Vec<u8> = patterned(1000).iter().map(|v| v.wrapping_add(3)).collect();
    let expected = hamming::distance_::naive(&a, &b);
    // equal shifts: the fast path runs and matches the scalar count
    for off in 0..8 {
        assert_eq!(hamming::distance_::distance_with_offsets(&a, &b, off, off), Ok(expected));
    }
    // differing shifts: the heads cannot line up, so the path declines
    assert!(hamming::distance_::distance_with_offsets(&a, &b, 0, 1).is_err());
    assert!(hamming::distance_::distance_with_offsets(&a, &b, 7, 2).is_err());
    // shifts of align or more push both heads to the whole slice, which
    // line up again
    assert_eq!(hamming::distance_::distance_with_offsets(&a, &b, 8, 100), Ok(expected));
    // below one block the whole slice is head for every shift
    let c = &a[..239];
    let d = &b[..239];
    let small = hamming::distance_::naive(c, d);
    assert_eq!(hamming::distance_::distance_with_offsets(c, d, 0, 5), Ok(small));
}

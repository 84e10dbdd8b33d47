//! The splitter on a small stack array of known alignment: the head,
//! middle and tail for every offset and length around one 4-byte unit.

fn align_to_test(
    from: usize,
    to: usize,
    true_head: &[u8],
    true_le_middle: &[u32],
    true_tail: &[u8],
) {
    let mut true_middle: Vec<u8> = Vec::new();
    for x in true_le_middle {
        true_middle.extend_from_slice(&u32::from_le(*x).to_ne_bytes());
    }

    let array_and_tuple = (0u64, [0u8, 1, 2, 3, 4, 5, 6, 7, 8, 9]);
    let array = &array_and_tuple.1;
    // the array should be aligned appropriately
    assert!((array.as_ptr() as usize) % 4 == 0);

    let (head, middle, tail) = hamming::align_to(&array[from..to], 4, 4);
    assert_eq!(head, true_head);
    assert_eq!(middle, true_middle.as_slice());
    assert_eq!(tail, true_tail);
}

#[test]
fn align_to_empty() {
    align_to_test(0, 0, &[], &[], &[]);
    align_to_test(1, 1, &[], &[], &[]);
    align_to_test(2, 2, &[], &[], &[]);
    align_to_test(3, 3, &[], &[], &[]);
}

#[test]
fn align_to_short() {
    align_to_test(0, 1, &[0], &[], &[]);
    align_to_test(1, 2, &[1], &[], &[]);
    align_to_test(2, 3, &[2], &[], &[]);
    align_to_test(3, 4, &[3], &[], &[]);

    align_to_test(0, 2, &[0, 1], &[], &[]);
    align_to_test(1, 3, &[1, 2], &[], &[]);
    align_to_test(2, 4, &[2, 3], &[], &[]);
    align_to_test(3, 5, &[3, 4], &[], &[]);

    align_to_test(0, 3, &[0, 1, 2], &[], &[]);
    align_to_test(1, 4, &[1, 2, 3], &[], &[]);
    align_to_test(2, 5, &[2, 3, 4], &[], &[]);
    align_to_test(3, 6, &[3, 4, 5], &[], &[]);
}

#[test]
fn align_to_exact() {
    align_to_test(0, 4, &[], &[0x03020100], &[]);
    align_to_test(0, 8, &[], &[0x03020100, 0x07060504], &[]);
}

#[test]
fn align_to_offset() {
    align_to_test(1, 5, &[1, 2, 3, 4], &[], &[]);
    align_to_test(2, 6, &[2, 3, 4, 5], &[], &[]);
    align_to_test(3, 7, &[3, 4, 5, 6], &[], &[]);
    align_to_test(1, 7, &[1, 2, 3, 4, 5, 6], &[], &[]);
}

#[test]
fn align_to_overlap() {
    align_to_test(0, 10, &[], &[0x03020100, 0x07060504], &[8, 9]);
    align_to_test(0, 5, &[], &[0x03020100], &[4]);

    align_to_test(1, 8, &[1, 2, 3], &[0x07060504], &[]);
    align_to_test(3, 9, &[3], &[0x07060504], &[8]);
}

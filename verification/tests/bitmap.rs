use iris_vector::bitmap::{is_bit_set, set_bitmap_bit, BITMAP_SIZE_BYTES};

#[test]
fn set_and_clear_one_bit() {
    let mut bm = vec![0u8; BITMAP_SIZE_BYTES];
    set_bitmap_bit(&mut bm, 10, true);
    assert!(is_bit_set(&bm, 10));
    assert!(!is_bit_set(&bm, 11));
    assert!(!is_bit_set(&bm, 9));
    set_bitmap_bit(&mut bm, 10, false);
    assert!(!is_bit_set(&bm, 10));
}

#[test]
fn neighbouring_bits_are_independent() {
    let mut bm = vec![0u8; BITMAP_SIZE_BYTES];
    set_bitmap_bit(&mut bm, 8, true);
    set_bitmap_bit(&mut bm, 9, true);
    assert!(is_bit_set(&bm, 8));
    assert!(is_bit_set(&bm, 9));
    set_bitmap_bit(&mut bm, 8, false);
    assert!(!is_bit_set(&bm, 8));
    assert!(is_bit_set(&bm, 9));
    assert_eq!(bm[1], 0b10);
}

#[test]
fn last_bit_of_bitmap() {
    let mut bm = vec![0u8; BITMAP_SIZE_BYTES];
    set_bitmap_bit(&mut bm, 1023, true);
    assert!(is_bit_set(&bm, 1023));
    assert_eq!(bm[127], 0x80);
}

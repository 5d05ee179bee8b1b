//! Presence bitmap: one bit per region slot, recording whether a value has
//! been written there. A region's bitmap is 128 bytes, covering 1024 slots.

use vstd::prelude::*;

verus! {

/// Bytes in one region's presence bitmap.
pub const BITMAP_SIZE_BYTES: usize = 128;

/// Whether bit `offset` of the bitmap is set: bit `offset % 8` of byte
/// `offset / 8`.
pub open spec fn spec_bit_set(bm: Seq<u8>, offset: int) -> bool {
    (bm[offset / 8] >> ((offset % 8) as u8)) & 1u8 == 1u8
}

/// Setting or clearing one bit of a byte leaves every other bit as it was.
proof fn lemma_bit_update(b: u8, i: u8, j: u8)
    requires
        i < 8,
        j < 8,
    ensures
        ((b | (1u8 << i)) >> i) & 1u8 == 1u8,
        ((b & !(1u8 << i)) >> i) & 1u8 == 0u8,
        i != j ==> ((b | (1u8 << i)) >> j) & 1u8 == (b >> j) & 1u8,
        i != j ==> ((b & !(1u8 << i)) >> j) & 1u8 == (b >> j) & 1u8,
{
    assert(i < 8 && j < 8 ==> (((b | (1u8 << i)) >> i) & 1u8 == 1u8) && (((b & !(1u8 << i)) >> i)
        & 1u8 == 0u8) && ((i != j) ==> ((((b | (1u8 << i)) >> j) & 1u8 == (b >> j) & 1u8) && (((b
        & !(1u8 << i)) >> j) & 1u8 == (b >> j) & 1u8)))) by (bit_vector);
}

/// Every bit of a zero byte is clear.
proof fn lemma_zero_byte(k: u8)
    ensures
        (0u8 >> k) & 1u8 != 1u8,
{
    assert((0u8 >> k) & 1u8 != 1u8) by (bit_vector);
}

/// No bit of an all-zero bitmap is set.
pub proof fn lemma_zero_bitmap_clear(bm: Seq<u8>)
    requires
        forall|b: int| 0 <= b < bm.len() ==> bm[b] == 0u8,
    ensures
        forall|j: int| 0 <= j < 8 * bm.len() ==> !spec_bit_set(bm, j),
{
    assert forall|j: int| 0 <= j < 8 * bm.len() implies !spec_bit_set(bm, j) by {
        assert(0 <= j / 8 < bm.len());
        lemma_zero_byte((j % 8) as u8);
    }
}

/// Sets or clears bit `offset % 8` of byte `offset / 8`, leaving every other
/// bit of the bitmap unchanged.
pub fn set_bitmap_bit(bitmap: &mut Vec<u8>, offset: usize, value: bool)
    requires
        old(bitmap)@.len() == BITMAP_SIZE_BYTES,
        offset < 8 * BITMAP_SIZE_BYTES,
    ensures
        final(bitmap)@.len() == BITMAP_SIZE_BYTES,
        spec_bit_set(final(bitmap)@, offset as int) == value,
        forall|j: int|
            0 <= j < 8 * BITMAP_SIZE_BYTES && j != offset ==> spec_bit_set(final(bitmap)@, j)
                == spec_bit_set(old(bitmap)@, j),
{
    let byte_index = offset / 8;
    let bit_index: u8 = (offset % 8) as u8;
    let b = bitmap[byte_index];
    if value {
        bitmap[byte_index] = b | (1u8 << bit_index);
    } else {
        bitmap[byte_index] = b & !(1u8 << bit_index);
    }
    proof {
        assert forall|j: int|
            0 <= j < 8 * BITMAP_SIZE_BYTES && j != offset implies spec_bit_set(bitmap@, j)
            == spec_bit_set(old(bitmap)@, j) by {
            if j / 8 == byte_index {
                vstd::arithmetic::div_mod::lemma_fundamental_div_mod(j, 8);
                vstd::arithmetic::div_mod::lemma_fundamental_div_mod(offset as int, 8);
                assert(j % 8 != offset % 8);
                lemma_bit_update(b, bit_index, (j % 8) as u8);
            }
        }
        lemma_bit_update(b, bit_index, bit_index);
    }
}

/// Whether the presence bit for `offset` is set.
pub fn is_bit_set(bitmap: &Vec<u8>, offset: usize) -> (r: bool)
    requires
        bitmap@.len() == BITMAP_SIZE_BYTES,
        offset < 8 * BITMAP_SIZE_BYTES,
    ensures
        r == spec_bit_set(bitmap@, offset as int),
{
    let byte_index = offset / 8;
    let bit_index: u8 = (offset % 8) as u8;
    (bitmap[byte_index] >> bit_index) & 1u8 == 1u8
}

} // verus!

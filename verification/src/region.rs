//! Regions: fixed-capacity dense storage blocks of one scalar kind, each
//! paired with a presence bitmap. A region covers 1024 consecutive indices.

use vstd::prelude::*;
use crate::bitmap::{spec_bit_set, BITMAP_SIZE_BYTES};
use crate::codec::{fixed_value, fixed_wf};

verus! {

/// Type tag for an integer vector.
pub const VEC_TYPE_INT: u8 = 0;

/// Type tag for a fixed-point decimal vector.
pub const VEC_TYPE_DECIMAL: u8 = 1;

/// Type tag for a double vector.
pub const VEC_TYPE_DOUBLE: u8 = 2;

/// Slots in one region.
pub const REGION_SIZE: usize = 1024;

/// A fixed-capacity block holding the slot data of one scalar kind and the
/// presence bitmap for its slots. `bitmap` always has `BITMAP_SIZE_BYTES`
/// bytes and `data` always has `REGION_SIZE` slots.
pub struct DenseRegion<T> {
    pub bitmap: Vec<u8>,
    pub data: Vec<T>,
}

/// A region of one of the three scalar kinds: integers as 64-bit signed
/// values, decimals as 9-byte fixed-point encodings, doubles as the 64 bits
/// of an IEEE-754 value.
pub enum VectorRegion {
    Integer(DenseRegion<i64>),
    Decimal(DenseRegion<Vec<u8>>),
    Double(DenseRegion<u64>),
}

/// A value in the native representation of one scalar kind: an integer as a
/// 64-bit signed value, a decimal as its scaled fixed-point integer (the
/// decimal value times ten to the vector's scale, truncated toward zero), a
/// double as the bits of an IEEE-754 value.
#[derive(Clone, Copy, Debug, PartialEq, Eq, Structural)]
pub enum VecValue {
    Integer(i64),
    Decimal(i64),
    Double(u64),
}

/// The type tag a value belongs to.
pub open spec fn spec_value_kind(v: VecValue) -> u8 {
    match v {
        VecValue::Integer(_) => VEC_TYPE_INT,
        VecValue::Decimal(_) => VEC_TYPE_DECIMAL,
        VecValue::Double(_) => VEC_TYPE_DOUBLE,
    }
}

/// The type tag a region stores.
pub open spec fn region_tag(r: VectorRegion) -> u8 {
    match r {
        VectorRegion::Integer(_) => VEC_TYPE_INT,
        VectorRegion::Decimal(_) => VEC_TYPE_DECIMAL,
        VectorRegion::Double(_) => VEC_TYPE_DOUBLE,
    }
}

/// The presence bitmap of a region.
pub open spec fn region_bitmap(r: VectorRegion) -> Seq<u8> {
    match r {
        VectorRegion::Integer(d) => d.bitmap@,
        VectorRegion::Decimal(d) => d.bitmap@,
        VectorRegion::Double(d) => d.bitmap@,
    }
}

/// Well-formedness of a region: full-size bitmap and data, and every decimal
/// slot a well-formed 9-byte encoding.
pub open spec fn region_wf(r: VectorRegion) -> bool {
    &&& region_bitmap(r).len() == BITMAP_SIZE_BYTES
    &&& match r {
        VectorRegion::Integer(d) => d.data@.len() == REGION_SIZE,
        VectorRegion::Decimal(d) => d.data@.len() == REGION_SIZE && forall|o: int|
            0 <= o < REGION_SIZE ==> fixed_wf(#[trigger] d.data@[o]@),
        VectorRegion::Double(d) => d.data@.len() == REGION_SIZE,
    }
}

/// Whether slot `o` of the region holds a value.
pub open spec fn slot_present(r: VectorRegion, o: int) -> bool {
    spec_bit_set(region_bitmap(r), o)
}

/// The value slot `o` of the region holds, in its native representation.
pub open spec fn slot_value(r: VectorRegion, o: int) -> VecValue {
    match r {
        VectorRegion::Integer(d) => VecValue::Integer(d.data@[o]),
        VectorRegion::Decimal(d) => VecValue::Decimal(fixed_value(d.data@[o]@) as i64),
        VectorRegion::Double(d) => VecValue::Double(d.data@[o]),
    }
}

/// The default zero value of a scalar kind: integer 0, the decimal with
/// scaled value 0, the double with all bits clear.
pub open spec fn spec_zero_value(tag: u8) -> VecValue {
    if tag == VEC_TYPE_INT {
        VecValue::Integer(0)
    } else if tag == VEC_TYPE_DECIMAL {
        VecValue::Decimal(0)
    } else {
        VecValue::Double(0)
    }
}

/// The all-zero encoding denotes zero.
proof fn lemma_zero_slot()
    ensures
        fixed_wf(seq![0u8; 9]),
        fixed_value(seq![0u8; 9]) == 0,
{
    let s: Seq<u8> = seq![0u8; 9];
    assert(((0u8 as u64) << 56 | (0u8 as u64) << 48 | (0u8 as u64) << 40 | (0u8 as u64) << 32 | (
    0u8 as u64) << 24 | (0u8 as u64) << 16 | (0u8 as u64) << 8 | (0u8 as u64)) == 0u64)
        by (bit_vector);
}

/// A fresh region of the given kind: bitmap fully clear, slots
/// default-initialized (zero for every kind).
pub fn new_region(tag: u8) -> (r: VectorRegion)
    requires
        tag == VEC_TYPE_INT || tag == VEC_TYPE_DECIMAL || tag == VEC_TYPE_DOUBLE,
    ensures
        region_wf(r),
        region_tag(r) == tag,
        forall|o: int| 0 <= o < REGION_SIZE ==> !slot_present(r, o),
        forall|o: int| 0 <= o < REGION_SIZE ==> slot_value(r, o) == spec_zero_value(tag),
{
    let r = if tag == VEC_TYPE_INT {
        VectorRegion::Integer(
            DenseRegion { bitmap: vec![0u8; BITMAP_SIZE_BYTES], data: vec![0i64; REGION_SIZE] },
        )
    } else if tag == VEC_TYPE_DECIMAL {
        VectorRegion::Decimal(
            DenseRegion {
                bitmap: vec![0u8; BITMAP_SIZE_BYTES],
                data: vec![vec![0u8; 9]; REGION_SIZE],
            },
        )
    } else {
        VectorRegion::Double(
            DenseRegion { bitmap: vec![0u8; BITMAP_SIZE_BYTES], data: vec![0u64; REGION_SIZE] },
        )
    };
    proof {
        assert(forall|b: int| 0 <= b < region_bitmap(r).len() ==> region_bitmap(r)[b] == 0u8);
        crate::bitmap::lemma_zero_bitmap_clear(region_bitmap(r));
        if tag == VEC_TYPE_DECIMAL {
            lemma_zero_slot();
            if let VectorRegion::Decimal(d) = &r {
                assert forall|o: int| 0 <= o < REGION_SIZE implies fixed_wf(#[trigger] d.data@[o]@)
                    && fixed_value(d.data@[o]@) == 0 by {
                    assert(d.data@[o]@ =~= seq![0u8; 9]);
                }
            }
        }
    }
    r
}

} // verus!

//! Fixed-point codec: a 9-byte sign-and-magnitude encoding of a scaled decimal
//! value. Byte 0 is the sign flag (1 for negative, 0 otherwise), bytes 1 to 8
//! hold the big-endian magnitude. The scaling of a floating-point value by a
//! power of ten happens in the caller; this codec works on the scaled integer.

use vstd::prelude::*;

verus! {

/// The magnitude stored in bytes 1 to 8 of a 9-byte encoding, big-endian.
pub open spec fn fixed_magnitude(s: Seq<u8>) -> u64 {
    ((s[1] as u64) << 56) | ((s[2] as u64) << 48) | ((s[3] as u64) << 40) | ((s[4] as u64) << 32)
        | ((s[5] as u64) << 24) | ((s[6] as u64) << 16) | ((s[7] as u64) << 8) | (s[8] as u64)
}

/// A well-formed encoding: 9 bytes, a 0-or-1 sign flag, the magnitude within
/// the range of a 64-bit signed value of that sign, and zero encoded as
/// non-negative.
pub open spec fn fixed_wf(s: Seq<u8>) -> bool {
    &&& s.len() == 9
    &&& (s[0] == 0u8 || s[0] == 1u8)
    &&& (s[0] == 0u8 ==> fixed_magnitude(s) <= 0x7fff_ffff_ffff_ffffu64)
    &&& (s[0] == 1u8 ==> 1 <= fixed_magnitude(s) && fixed_magnitude(s) <= 0x8000_0000_0000_0000u64)
}

/// The scaled integer value an encoding denotes.
pub open spec fn fixed_value(s: Seq<u8>) -> int {
    if s[0] == 0u8 {
        fixed_magnitude(s) as int
    } else {
        -(fixed_magnitude(s) as int)
    }
}

/// The magnitude of a scaled value.
pub open spec fn fixed_abs(v: i64) -> u64 {
    if v < 0 {
        (-(v as int)) as u64
    } else {
        v as u64
    }
}

/// The canonical 9-byte encoding of a scaled value.
pub open spec fn fixed_encoding(v: i64) -> Seq<u8> {
    let m = fixed_abs(v);
    seq![
        if v < 0 { 1u8 } else { 0u8 },
        (m >> 56) as u8,
        (m >> 48) as u8,
        (m >> 40) as u8,
        (m >> 32) as u8,
        (m >> 24) as u8,
        (m >> 16) as u8,
        (m >> 8) as u8,
        m as u8,
    ]
}

/// Splitting a 64-bit magnitude into eight big-endian bytes and reassembling
/// them is the identity.
proof fn lemma_magnitude_bytes(m: u64)
    ensures
        ((((m >> 56) as u8) as u64) << 56 | (((m >> 48) as u8) as u64) << 48
            | (((m >> 40) as u8) as u64) << 40 | (((m >> 32) as u8) as u64) << 32
            | (((m >> 24) as u8) as u64) << 24 | (((m >> 16) as u8) as u64) << 16
            | (((m >> 8) as u8) as u64) << 8 | ((m as u8) as u64)) == m,
{
    assert(((((m >> 56) as u8) as u64) << 56 | (((m >> 48) as u8) as u64) << 48
        | (((m >> 40) as u8) as u64) << 40 | (((m >> 32) as u8) as u64) << 32
        | (((m >> 24) as u8) as u64) << 24 | (((m >> 16) as u8) as u64) << 16
        | (((m >> 8) as u8) as u64) << 8 | ((m as u8) as u64)) == m) by (bit_vector);
}

/// Law: the canonical encoding of any scaled value is well formed and decodes
/// to exactly that value.
pub proof fn lemma_fixed_point_round_trip(v: i64)
    ensures
        fixed_wf(fixed_encoding(v)),
        fixed_value(fixed_encoding(v)) == v as int,
{
    let m = fixed_abs(v);
    let s = fixed_encoding(v);
    lemma_magnitude_bytes(m);
    assert(fixed_magnitude(s) == m);
    if v < 0 {
        assert(1 <= -(v as int) <= 0x8000_0000_0000_0000);
        assert(m == -(v as int));
    } else {
        assert(m == v as int);
    }
}

/// Encodes a scaled value: byte 0 the sign flag, bytes 1 to 8 the big-endian
/// magnitude.
pub fn encode_fixed_point(value: i64) -> (r: Vec<u8>)
    ensures
        r@ == fixed_encoding(value),
        fixed_wf(r@),
        fixed_value(r@) == value as int,
{
    let negative = value < 0;
    let magnitude: u64 = if negative {
        (-(value as i128)) as u64
    } else {
        value as u64
    };
    let mut r: Vec<u8> = Vec::new();
    r.push(if negative { 1 } else { 0 });
    r.push((magnitude >> 56) as u8);
    r.push((magnitude >> 48) as u8);
    r.push((magnitude >> 40) as u8);
    r.push((magnitude >> 32) as u8);
    r.push((magnitude >> 24) as u8);
    r.push((magnitude >> 16) as u8);
    r.push((magnitude >> 8) as u8);
    r.push(magnitude as u8);
    proof {
        assert(magnitude == fixed_abs(value));
        assert(r@ =~= fixed_encoding(value));
        lemma_fixed_point_round_trip(value);
    }
    r
}

/// Decodes a 9-byte encoding back to the scaled value it denotes.
pub fn decode_fixed_point(bytes: &Vec<u8>) -> (r: i64)
    requires
        fixed_wf(bytes@),
    ensures
        r as int == fixed_value(bytes@),
{
    let magnitude: u64 = ((bytes[1] as u64) << 56) | ((bytes[2] as u64) << 48)
        | ((bytes[3] as u64) << 40) | ((bytes[4] as u64) << 32) | ((bytes[5] as u64) << 24)
        | ((bytes[6] as u64) << 16) | ((bytes[7] as u64) << 8) | (bytes[8] as u64);
    assert(magnitude == fixed_magnitude(bytes@));
    if bytes[0] == 1 {
        (-(magnitude as i128)) as i64
    } else {
        magnitude as i64
    }
}

} // verus!

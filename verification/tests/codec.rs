use iris_vector::codec::{decode_fixed_point, encode_fixed_point};

fn round_trip(v: i64) -> i64 {
    decode_fixed_point(&encode_fixed_point(v))
}

#[test]
fn encode_positive_exact_bytes() {
    // 1234567 = 0x12D687, big-endian in bytes 1..=8, sign byte 0.
    let e = encode_fixed_point(1234567);
    assert_eq!(e, vec![0, 0, 0, 0, 0, 0, 0x12, 0xD6, 0x87]);
}

#[test]
fn encode_negative_exact_bytes() {
    let e = encode_fixed_point(-1234567);
    assert_eq!(e, vec![1, 0, 0, 0, 0, 0, 0x12, 0xD6, 0x87]);
}

#[test]
fn encode_zero_is_non_negative() {
    let e = encode_fixed_point(0);
    assert_eq!(e, vec![0; 9]);
}

#[test]
fn round_trip_extremes() {
    assert_eq!(round_trip(0), 0);
    assert_eq!(round_trip(-1), -1);
    assert_eq!(round_trip(1), 1);
    assert_eq!(round_trip(i64::MAX), i64::MAX);
    assert_eq!(round_trip(i64::MIN), i64::MIN);
    assert_eq!(round_trip(-456780), -456780);
}

#[test]
fn float_round_trip_at_scale_four() {
    // Decimal values with four-decimal precision survive the scale-4
    // fixed-point encoding within float64 rounding tolerance.
    let samples = [123.4567f64, -45.678, 0.0001, 9999.9999, -0.5];
    for &v in samples.iter() {
        let scaled = (v * 10f64.powi(4)) as i64;
        let back = round_trip(scaled) as f64 / 10f64.powi(4);
        assert!((back - v).abs() < 1e-9);
    }
}

use iris_vector::region::{VecValue, VEC_TYPE_DECIMAL, VEC_TYPE_INT};
use iris_vector::vector::{Vector, VectorError, DECIMAL_SCALE};

fn scaled(v: f64) -> i64 {
    (v * 10f64.powi(DECIMAL_SCALE as i32)) as i64
}

fn unscaled(s: i64) -> f64 {
    s as f64 / 10f64.powi(DECIMAL_SCALE as i32)
}

#[test]
fn new_vector_is_untyped_and_empty() {
    let v = Vector::new();
    assert_eq!(v.count(), 0);
    assert_eq!(v.first_index(), 0);
    assert_eq!(v.last_index(), 0);
    assert_eq!(v.vector_type(), None);
    assert_eq!(v.region_count(), 0);
}

#[test]
fn integer_end_to_end() {
    let mut v = Vector::new();
    assert_eq!(v.set(0, "integer", VecValue::Integer(42)), Ok(()));
    assert_eq!(v.set(1, "integer", VecValue::Integer(-17)), Ok(()));
    assert_eq!(v.set(5, "integer", VecValue::Integer(1000)), Ok(()));
    assert_eq!(v.vector_type(), Some(VEC_TYPE_INT));
    assert_eq!(v.count(), 3);
    assert_eq!(v.first_index(), 0);
    assert_eq!(v.last_index(), 5);
    assert_eq!(v.get_integer(0), Ok(42));
    assert_eq!(v.get_integer(1), Ok(-17));
    assert_eq!(v.get_integer(5), Ok(1000));
}

#[test]
fn decimal_end_to_end() {
    let mut v = Vector::new();
    assert_eq!(v.set(0, "decimal", VecValue::Decimal(scaled(123.4567))), Ok(()));
    assert_eq!(v.set(1, "decimal", VecValue::Decimal(scaled(-45.678))), Ok(()));
    assert_eq!(v.set(2, "decimal", VecValue::Decimal(scaled(0.0001))), Ok(()));
    assert_eq!(v.vector_type(), Some(VEC_TYPE_DECIMAL));
    assert!((unscaled(v.get_decimal(0).unwrap()) - 123.4567).abs() < 1e-9);
    assert!((unscaled(v.get_decimal(1).unwrap()) - -45.678).abs() < 1e-9);
    assert!((unscaled(v.get_decimal(2).unwrap()) - 0.0001).abs() < 1e-9);
}

#[test]
fn double_round_trips_through_bits() {
    let mut v = Vector::new();
    assert_eq!(v.set(0, "double", VecValue::Double(3.14f64.to_bits())), Ok(()));
    assert_eq!(v.set(2, "double", VecValue::Double((-2.718f64).to_bits())), Ok(()));
    assert_eq!(f64::from_bits(v.get_double(0).unwrap()), 3.14);
    assert_eq!(f64::from_bits(v.get_double(2).unwrap()), -2.718);
}

#[test]
fn distinct_indices_are_independent() {
    let mut v = Vector::new();
    assert_eq!(v.set(2, "integer", VecValue::Integer(7)), Ok(()));
    assert_eq!(v.set(9, "integer", VecValue::Integer(-3)), Ok(()));
    assert_eq!(v.get_integer(2), Ok(7));
    assert_eq!(v.get_integer(9), Ok(-3));
    assert_eq!(v.first_index(), 2);
    assert_eq!(v.last_index(), 9);
}

#[test]
fn first_tracks_smallest_index_written() {
    let mut v = Vector::new();
    assert_eq!(v.set(5, "integer", VecValue::Integer(1)), Ok(()));
    // The first write seeds the bound; it is not the header's initial 0.
    assert_eq!(v.first_index(), 5);
    assert_eq!(v.last_index(), 5);
    assert_eq!(v.set(3, "integer", VecValue::Integer(2)), Ok(()));
    assert_eq!(v.first_index(), 3);
    assert_eq!(v.set(7, "integer", VecValue::Integer(3)), Ok(()));
    assert_eq!(v.first_index(), 3);
    assert_eq!(v.last_index(), 7);
}

#[test]
fn type_lock_in_rejects_other_types() {
    let mut v = Vector::new();
    assert_eq!(v.set(0, "integer", VecValue::Integer(1)), Ok(()));
    assert_eq!(
        v.set(1, "decimal", VecValue::Decimal(5)),
        Err(VectorError::TypeMismatch)
    );
    assert_eq!(
        v.set(1, "DOUBLE", VecValue::Double(1)),
        Err(VectorError::TypeMismatch)
    );
    // The failed calls changed nothing.
    assert_eq!(v.count(), 1);
    assert_eq!(v.get_integer(0), Ok(1));
    assert_eq!(v.get_integer(1), Err(VectorError::NoValueAtIndex));
}

#[test]
fn type_names_match_case_insensitively() {
    let mut v = Vector::new();
    assert_eq!(v.set(0, "InTeGeR", VecValue::Integer(8)), Ok(()));
    assert_eq!(v.set(1, "INTEGER", VecValue::Integer(9)), Ok(()));
    assert_eq!(v.vector_type(), Some(VEC_TYPE_INT));
    assert_eq!(v.get_integer(0), Ok(8));
    assert_eq!(v.get_integer(1), Ok(9));
}

#[test]
fn unknown_type_name_is_invalid() {
    let mut v = Vector::new();
    assert_eq!(
        v.set(0, "float", VecValue::Integer(1)),
        Err(VectorError::InvalidType)
    );
    assert_eq!(
        v.set(0, "", VecValue::Integer(1)),
        Err(VectorError::InvalidType)
    );
    assert_eq!(v.vector_type(), None);
    assert_eq!(v.count(), 0);
}

#[test]
fn wrong_representation_is_invalid() {
    let mut v = Vector::new();
    assert_eq!(
        v.set(0, "integer", VecValue::Double(1)),
        Err(VectorError::InvalidType)
    );
    assert_eq!(v.vector_type(), None);
}

#[test]
fn bitmap_gates_reads() {
    let mut v = Vector::new();
    assert_eq!(v.set(4, "decimal", VecValue::Decimal(scaled(1.5))), Ok(()));
    // Index 3 shares the allocated region but was never written.
    assert_eq!(v.get_decimal(3), Err(VectorError::NoValueAtIndex));
    assert!((unscaled(v.get_decimal(4).unwrap()) - 1.5).abs() < 1e-9);
}

#[test]
fn reads_before_any_region_fail() {
    let v = Vector::new();
    assert_eq!(v.get_decimal(0), Err(VectorError::RegionNotInitialized));
    assert_eq!(v.get_integer(0), Err(VectorError::RegionNotInitialized));
    assert_eq!(v.get_double(0), Err(VectorError::RegionNotInitialized));
}

#[test]
fn getter_of_wrong_type_fails() {
    let mut v = Vector::new();
    assert_eq!(v.set(0, "integer", VecValue::Integer(1)), Ok(()));
    assert_eq!(v.get_decimal(0), Err(VectorError::RegionNotInitialized));
    assert_eq!(v.get_double(0), Err(VectorError::RegionNotInitialized));
}

#[test]
fn region_boundary_allocates_two_regions() {
    let mut v = Vector::new();
    assert_eq!(v.set(1023, "decimal", VecValue::Decimal(scaled(1.0))), Ok(()));
    assert_eq!(v.region_count(), 1);
    assert_eq!(v.set(1024, "decimal", VecValue::Decimal(scaled(2.0))), Ok(()));
    assert_eq!(v.region_count(), 2);
    assert!((unscaled(v.get_decimal(1023).unwrap()) - 1.0).abs() < 1e-9);
    assert!((unscaled(v.get_decimal(1024).unwrap()) - 2.0).abs() < 1e-9);
}

#[test]
fn count_increments_on_every_set() {
    let mut v = Vector::new();
    assert_eq!(v.set(0, "integer", VecValue::Integer(1)), Ok(()));
    assert_eq!(v.set(0, "integer", VecValue::Integer(2)), Ok(()));
    assert_eq!(v.count(), 2);
    // The overwrite took effect.
    assert_eq!(v.get_integer(0), Ok(2));
}

#[test]
fn index_beyond_capacity_is_out_of_range() {
    let mut v = Vector::new();
    assert_eq!(
        v.set(64 * 1024, "integer", VecValue::Integer(1)),
        Err(VectorError::IndexOutOfRange)
    );
    // The failed call did not lock the type.
    assert_eq!(v.vector_type(), None);
    assert_eq!(v.set(64 * 1024 - 1, "integer", VecValue::Integer(1)), Ok(()));
    assert_eq!(v.get_integer(64 * 1024 - 1), Ok(1));
    assert_eq!(v.first_index(), u16::MAX);
    assert_eq!(v.last_index(), u16::MAX);
}

use parquet_write::nullable::{F32Bits, F64Bits, Nullable};
use parquet_write::statistics::{build_statistics, build_statistics_f32};

#[test]
fn sentinel_classification_per_type() {
    assert!(!0i8.is_null());
    assert!(!i8::MIN.is_null());
    assert!(!0i16.is_null());
    assert!(!i16::MIN.is_null());
    assert!(!true.is_null());
    assert!(!false.is_null());
    assert!(i32::MIN.is_null());
    assert!(!0i32.is_null());
    assert!(!i32::MAX.is_null());
    assert!(i64::MIN.is_null());
    assert!(!0i64.is_null());
    assert!(F32Bits { bits: f32::NAN.to_bits() }.is_null());
    assert!(!F32Bits { bits: 0.5f32.to_bits() }.is_null());
    assert!(!F32Bits { bits: f32::INFINITY.to_bits() }.is_null());
    assert!(F64Bits { bits: f64::NAN.to_bits() }.is_null());
    assert!(!F64Bits { bits: 0.5f64.to_bits() }.is_null());
    assert!(!F64Bits { bits: f64::NEG_INFINITY.to_bits() }.is_null());
}

#[test]
fn null_count_tallies_the_sentinels() {
    let stats = build_statistics(&[i32::MIN, 7, i32::MIN, 7, i32::MIN]);
    assert_eq!(stats.null_count, 3);
    let stats = build_statistics(&[1, 2, 3]);
    assert_eq!(stats.null_count, 0);
}

#[test]
fn min_max_exclude_the_sentinel() {
    // The concrete scenario column: one sentinel among 1, 2, 3.
    let stats = build_statistics(&[1, 2, i32::MIN, 3]);
    assert_eq!(stats.null_count, 1);
    assert_eq!(stats.min_max, Some((1, 3)));

    let stats = build_statistics(&[-5, i32::MAX, 0]);
    assert_eq!(stats.min_max, Some((-5, i32::MAX)));
    assert_eq!(stats.null_count, 0);
}

#[test]
fn all_null_chunk_has_no_min_max() {
    let stats = build_statistics(&[i32::MIN, i32::MIN]);
    assert_eq!(stats.null_count, 2);
    assert_eq!(stats.min_max, None);

    let stats = build_statistics(&[]);
    assert_eq!(stats.null_count, 0);
    assert_eq!(stats.min_max, None);
}

fn f32_chunk(values: &[f32]) -> Vec<F32Bits> {
    values.iter().map(|v| F32Bits { bits: v.to_bits() }).collect()
}

#[test]
fn float_min_max_exclude_nan() {
    // The concrete scenario column: NaN among 0.5, 0.001, 3.14.
    let chunk = f32_chunk(&[0.5, 0.001, f32::NAN, 3.14]);
    let stats = build_statistics_f32(&chunk);
    assert_eq!(stats.null_count, 1);
    let (min, max) = stats.min_max.unwrap();
    assert_eq!(f32::from_bits(min.bits), 0.001);
    assert_eq!(f32::from_bits(max.bits), 3.14);
}

#[test]
fn float_order_handles_signs() {
    let chunk = f32_chunk(&[-1.0, 2.0, -3.5, 0.25]);
    let stats = build_statistics_f32(&chunk);
    assert_eq!(stats.null_count, 0);
    let (min, max) = stats.min_max.unwrap();
    assert_eq!(f32::from_bits(min.bits), -3.5);
    assert_eq!(f32::from_bits(max.bits), 2.0);
}

#[test]
fn all_nan_chunk_has_no_min_max() {
    let chunk = f32_chunk(&[f32::NAN, f32::NAN]);
    let stats = build_statistics_f32(&chunk);
    assert_eq!(stats.null_count, 2);
    assert!(stats.min_max.is_none());
}

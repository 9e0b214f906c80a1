//! Tests for alignment and size arithmetic, and for decimal rendering.

use fastalloc::decimal::decimal_string;
use fastalloc::utils::next_chunk_size;
use fastalloc::GrowthStrategy;
use fastalloc::utils::align_up;
use fastalloc::utils::aligned_size;
use fastalloc::utils::clamp_capacity;
use fastalloc::utils::compute_linear_growth;
use fastalloc::utils::is_power_of_two;
use fastalloc::utils::padding_needed;
use fastalloc::utils::validate_alignment;

#[test]
fn test_is_power_of_two() {
    assert!(is_power_of_two(1));
    assert!(is_power_of_two(2));
    assert!(is_power_of_two(4));
    assert!(is_power_of_two(8));
    assert!(is_power_of_two(64));
    assert!(is_power_of_two(1024));

    assert!(!is_power_of_two(0));
    assert!(!is_power_of_two(3));
    assert!(!is_power_of_two(7));
    assert!(!is_power_of_two(100));
}

#[test]
fn test_validate_alignment() {
    assert!(validate_alignment(1).is_ok());
    assert!(validate_alignment(2).is_ok());
    assert!(validate_alignment(4).is_ok());
    assert!(validate_alignment(64).is_ok());

    assert!(validate_alignment(0).is_err());
    assert!(validate_alignment(3).is_err());
    assert!(validate_alignment(7).is_err());
}

#[test]
fn test_align_up() {
    assert_eq!(align_up(0, 4), 0);
    assert_eq!(align_up(1, 4), 4);
    assert_eq!(align_up(4, 4), 4);
    assert_eq!(align_up(5, 4), 8);
    assert_eq!(align_up(7, 8), 8);
    assert_eq!(align_up(9, 8), 16);
    assert_eq!(align_up(100, 64), 128);
}

#[test]
fn test_padding_needed() {
    assert_eq!(padding_needed(0, 4), 0);
    assert_eq!(padding_needed(1, 4), 3);
    assert_eq!(padding_needed(4, 4), 0);
    assert_eq!(padding_needed(5, 4), 3);
    assert_eq!(padding_needed(7, 8), 1);
    assert_eq!(padding_needed(9, 8), 7);
}

#[test]
fn test_clamp_capacity() {
    assert_eq!(clamp_capacity(50, 10, Some(100)), 50);
    assert_eq!(clamp_capacity(5, 10, Some(100)), 10);
    assert_eq!(clamp_capacity(150, 10, Some(100)), 100);
    assert_eq!(clamp_capacity(150, 10, None), 150);
}

#[test]
fn test_aligned_size() {
    assert_eq!(aligned_size::<u8>(8), 8);
    assert_eq!(aligned_size::<u64>(4), 8);
    assert_eq!(aligned_size::<[u8; 10]>(8), 16);
}

#[test]
fn test_compute_linear_growth() {
    assert_eq!(compute_linear_growth(25), 25);
}

#[test]
fn test_next_chunk_size() {
    assert_eq!(next_chunk_size(10, &GrowthStrategy::Fixed), 0);
    assert_eq!(next_chunk_size(10, &GrowthStrategy::Linear { amount: 4 }), 4);
    assert_eq!(
        next_chunk_size(10, &GrowthStrategy::Exponential { numerator: 2, denominator: 1 }),
        10,
    );
}

#[test]
fn decimal_rendering_is_exact() {
    assert_eq!(decimal_string(0), "0");
    assert_eq!(decimal_string(7), "7");
    assert_eq!(decimal_string(10), "10");
    assert_eq!(decimal_string(105), "105");
    assert_eq!(decimal_string(98765), "98765");
}

// Tests of the fixed-point scalar kernel: truncating division, scaled
// products, and the integer square root.

use softbody::fixed::{div_trunc_i128, isqrt_u128, mul_fx_i128};

#[test]
fn division_truncates_toward_zero() {
    assert_eq!(div_trunc_i128(7, 2), 3);
    assert_eq!(div_trunc_i128(-7, 2), -3);
    assert_eq!(div_trunc_i128(1, 3), 0);
    assert_eq!(div_trunc_i128(-1, 3), 0);
    assert_eq!(div_trunc_i128(-1024, 1024), -1);
}

#[test]
fn scaled_product_is_exact_on_whole_units() {
    // 1.5 * 1.5 = 2.25, in units of 1/1024.
    assert_eq!(mul_fx_i128(1536, 1536), 2304);
    assert_eq!(mul_fx_i128(10 * 1024, 4 * 1024), 40 * 1024);
    assert_eq!(mul_fx_i128(-10 * 1024, 4 * 1024), -40 * 1024);
    assert_eq!(mul_fx_i128(0, 123456), 0);
}

#[test]
fn integer_square_root_brackets() {
    assert_eq!(isqrt_u128(0), 0);
    assert_eq!(isqrt_u128(1), 1);
    assert_eq!(isqrt_u128(3), 1);
    assert_eq!(isqrt_u128(4), 2);
    assert_eq!(isqrt_u128(999_999), 999);
    assert_eq!(isqrt_u128(1_000_000), 1000);
    assert_eq!(isqrt_u128(u128::MAX), (1u128 << 64) - 1);
}

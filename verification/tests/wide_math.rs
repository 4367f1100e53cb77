use onsenswap::bignum::{big_add, big_from_u128, big_ge, big_mul, big_mul_small, big_pad, big_shift};

fn big_eq(a: &Vec<u64>, b: &Vec<u64>) -> bool {
    big_ge(a, b) && big_ge(b, a)
}

#[test]
fn from_u128_round_trip_order() {
    assert!(big_ge(&big_from_u128(6), &big_from_u128(5)));
    assert!(big_ge(&big_from_u128(5), &big_from_u128(5)));
    assert!(!big_ge(&big_from_u128(5), &big_from_u128(6)));
    assert!(big_ge(&big_from_u128(u128::MAX), &big_from_u128(u128::MAX - 1)));
}

#[test]
fn add_carries_across_the_limb_boundary() {
    // u64::MAX + 1 crosses into the second limb.
    let sum = big_add(&big_from_u128(u64::MAX as u128), &big_from_u128(1));
    assert!(big_eq(&sum, &big_from_u128(1u128 << 64)));
    // u128::MAX + 1 equals base^2, one shifted limb beyond 128 bits.
    let sum = big_add(&big_from_u128(u128::MAX), &big_from_u128(1));
    assert!(big_eq(&sum, &big_shift(&big_from_u128(1), 2)));
}

#[test]
fn mul_matches_known_products() {
    let p = big_mul(&big_from_u128(12_345_678_901), &big_from_u128(98_765_432_109));
    assert!(big_eq(&p, &big_from_u128(12_345_678_901u128 * 98_765_432_109u128)));
    // (2^96)^2 = 2^192: three limbs of shift.
    let p = big_mul(&big_from_u128(1u128 << 96), &big_from_u128(1u128 << 96));
    assert!(big_eq(&p, &big_shift(&big_from_u128(1), 3)));
    assert!(!big_eq(&p, &big_shift(&big_from_u128(1), 2)));
}

#[test]
fn mul_is_commutative_beyond_native_width() {
    let a = big_from_u128(u128::MAX - 17);
    let b = big_from_u128(u128::MAX / 3);
    assert!(big_eq(&big_mul(&a, &b), &big_mul(&b, &a)));
}

#[test]
fn mul_small_agrees_with_mul() {
    let a = big_from_u128(u128::MAX - 5);
    assert!(big_eq(&big_mul_small(&a, 1000), &big_mul(&a, &big_from_u128(1000))));
}

#[test]
fn padding_keeps_the_value() {
    let a = big_from_u128(77);
    let padded = big_pad(&a, 9);
    assert_eq!(padded.len(), 9);
    assert!(big_eq(&a, &padded));
}

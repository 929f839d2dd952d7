use executooor::math::{mul_div_up, percent_mul};
use executooor::types::Uint256;

#[test]
fn test_percent_mul() {
    // 1_000_000 * 5 / 10_000 = 500
    let result = percent_mul(Uint256::from_u64(1_000_000), Uint256::from_u64(5));
    assert_eq!(result.limbs, Uint256::from_u64(500).limbs);
}

#[test]
fn test_percent_mul_rounding() {
    // 1 * 1 + 5000 / 10000 = 5001 / 10000 = 0 (rounds down)
    let result = percent_mul(Uint256::from_u64(1), Uint256::from_u64(1));
    assert_eq!(result.limbs, Uint256::zero().limbs);

    // 10001 * 1 + 5000 / 10000 = 15001 / 10000 = 1
    let result = percent_mul(Uint256::from_u64(10001), Uint256::from_u64(1));
    assert_eq!(result.limbs, Uint256::from_u64(1).limbs);
}

#[test]
fn test_mul_div_up() {
    // 1_000_000 * 500 / 1_000_000 = 500
    let result = mul_div_up(
        Uint256::from_u64(1_000_000),
        Uint256::from_u64(500),
        Uint256::from_u64(1_000_000),
    );
    assert_eq!(result.limbs, Uint256::from_u64(500).limbs);
}

#[test]
fn test_mul_div_up_rounds_up() {
    // 1 * 1 / 3 => (1 + 2) / 3 = 1 (rounds up from 0.333...)
    let result = mul_div_up(Uint256::from_u64(1), Uint256::from_u64(1), Uint256::from_u64(3));
    assert_eq!(result.limbs, Uint256::from_u64(1).limbs);
}

#[test]
fn test_percent_mul_half_up() {
    // 5 * 1000 = 5000; (5000 + 5000) / 10000 = 1: the tie rounds up
    let result = percent_mul(Uint256::from_u64(5), Uint256::from_u64(1000));
    assert_eq!(result.limbs, Uint256::from_u64(1).limbs);
}

#[test]
fn test_math_matches_reference_arithmetic() {
    // cross-check against the 256-bit reference type on a wide value
    let a = Uint256::from_limbs([0xdead_beef, 7, 0, 1]);
    let b = Uint256::from_u64(3);
    let r = percent_mul(a, b);
    let ar = alloy_primitives::U256::from_limbs(a.limbs);
    let br = alloy_primitives::U256::from_limbs(b.limbs);
    let expected = (ar * br + alloy_primitives::U256::from(5000u64))
        / alloy_primitives::U256::from(10000u64);
    assert_eq!(alloy_primitives::U256::from_limbs(r.limbs), expected);

    let d = Uint256::from_u64(7);
    let r2 = mul_div_up(a, b, d);
    let one = alloy_primitives::U256::from(1u64);
    let dr = alloy_primitives::U256::from(7u64);
    let expected2 = (ar * br + dr - one) / dr;
    assert_eq!(alloy_primitives::U256::from_limbs(r2.limbs), expected2);
}

//! Fixed-point integer math matching on-chain rounding conventions.

use vstd::prelude::*;

use crate::types::{u256_limit, Uint256};
use crate::u256::{u256_checked_add, u256_checked_mul, u256_dec, u256_div};

verus! {

/// Computes `(value * percentage + 5000) / 10000` at full 256-bit width:
/// a percentage expressed in basis points, with ties rounding up.
///
/// The intermediate sum must fit in 256 bits; on-chain the same computation
/// reverts otherwise.
pub fn percent_mul(value: Uint256, percentage: Uint256) -> (r: Uint256)
    requires
        value@ * percentage@ + 5000 < u256_limit(),
    ensures
        r@ == (value@ * percentage@ + 5000) / 10000,
{
    let product = u256_checked_mul(value, percentage).unwrap();
    let half = Uint256::from_u64(5000);
    let sum = u256_checked_add(product, half).unwrap();
    let factor = Uint256::from_u64(10000);
    u256_div(sum, factor)
}

/// Computes `(x * y + d - 1) / d`, the ceiling of `x * y / d`.
///
/// The divisor must not be zero, and the intermediate sum must fit in 256
/// bits; on-chain the same computation reverts otherwise.
pub fn mul_div_up(x: Uint256, y: Uint256, d: Uint256) -> (r: Uint256)
    requires
        d@ > 0,
        x@ * y@ + d@ - 1 < u256_limit(),
    ensures
        r@ == ((x@ * y@ + d@ - 1) as nat) / d@,
{
    let product = u256_checked_mul(x, y).unwrap();
    let d_minus_one = u256_dec(d);
    let sum = u256_checked_add(product, d_minus_one).unwrap();
    u256_div(sum, d)
}

} // verus!

//! Arithmetic on [`Uint256`], carried out by the 256-bit integer type of the
//! `alloy_primitives` crate.  Each function here converts the four limbs to
//! that type, makes one call, and converts back; the contracts state what the
//! called functions document.

use vstd::prelude::*;

use crate::types::{u256_limit, Uint256};

verus! {

/// Relies on `alloy_primitives::U256::checked_add`: returns the sum, or
/// `None` exactly when the sum does not fit in 256 bits.  Limbs pass through
/// `from_limbs`/`into_limbs`, least significant first on both sides.
#[verifier::external_body]
pub(crate) fn u256_checked_add(a: Uint256, b: Uint256) -> (r: Option<Uint256>)
    ensures
        (r is Some) <==> a@ + b@ < u256_limit(),
        r matches Some(s) ==> s@ == a@ + b@,
{
    alloy_primitives::U256::from_limbs(a.limbs)
        .checked_add(alloy_primitives::U256::from_limbs(b.limbs))
        .map(|v| Uint256 { limbs: v.into_limbs() })
}

/// Relies on `alloy_primitives::U256::checked_mul`: returns the product, or
/// `None` exactly when the product does not fit in 256 bits.
#[verifier::external_body]
pub(crate) fn u256_checked_mul(a: Uint256, b: Uint256) -> (r: Option<Uint256>)
    ensures
        (r is Some) <==> a@ * b@ < u256_limit(),
        r matches Some(s) ==> s@ == a@ * b@,
{
    alloy_primitives::U256::from_limbs(a.limbs)
        .checked_mul(alloy_primitives::U256::from_limbs(b.limbs))
        .map(|v| Uint256 { limbs: v.into_limbs() })
}

/// Relies on `alloy_primitives::U256::checked_div`: floor division, defined
/// whenever the divisor is not zero.
#[verifier::external_body]
pub(crate) fn u256_div(a: Uint256, d: Uint256) -> (r: Uint256)
    requires
        d@ > 0,
    ensures
        r@ == a@ / d@,
{
    let q = alloy_primitives::U256::from_limbs(a.limbs)
        .checked_div(alloy_primitives::U256::from_limbs(d.limbs))
        .unwrap();
    Uint256 { limbs: q.into_limbs() }
}

/// Subtracts one from a positive value, propagating the borrow through the
/// limbs.
pub(crate) fn u256_dec(d: Uint256) -> (r: Uint256)
    requires
        d@ > 0,
    ensures
        r@ == d@ - 1,
{
    let l = d.limbs;
    if l[0] > 0 {
        Uint256 { limbs: [l[0] - 1, l[1], l[2], l[3]] }
    } else if l[1] > 0 {
        Uint256 { limbs: [u64::MAX, l[1] - 1, l[2], l[3]] }
    } else if l[2] > 0 {
        Uint256 { limbs: [u64::MAX, u64::MAX, l[2] - 1, l[3]] }
    } else {
        Uint256 { limbs: [u64::MAX, u64::MAX, u64::MAX, l[3] - 1] }
    }
}

} // verus!

use vstd::prelude::*;
use soroban_fixed_point_math::FixedPoint;

verus! {

/// Basis-point denominator: 10_000 bps is 100%.
pub const BPS_DENOMINATOR: u128 = 10_000;

/// `x * y` clamped to `u128::MAX`.
pub open spec fn sat_mul_spec(x: u128, y: u128) -> u128 {
    if x * y > u128::MAX { u128::MAX } else { (x * y) as u128 }
}

/// `x + y` clamped to `u128::MAX`.
pub open spec fn sat_add_spec(x: u128, y: u128) -> u128 {
    if x + y > u128::MAX { u128::MAX } else { (x + y) as u128 }
}

/// `floor(x * y / z)` when `x * y` fits in a `u128` and `z` is not zero.
pub open spec fn mul_div_floor_spec(x: u128, y: u128, z: u128) -> Option<u128> {
    if x * y <= u128::MAX && z != 0 {
        Some(((x * y) / (z as int)) as u128)
    } else {
        None
    }
}

/// Saturating multiplication of two `u128` values.
pub fn sat_mul(x: u128, y: u128) -> (r: u128)
    ensures
        r == sat_mul_spec(x, y),
{
    match x.checked_mul(y) {
        Some(v) => v,
        None => u128::MAX,
    }
}

/// `soroban_fixed_point_math::FixedPoint::fixed_mul_floor` on `u128`: the crate
/// multiplies with `checked_mul` and divides with `checked_div`, so the result is
/// `Some(floor(x * y / denominator))` exactly when the product fits and the
/// denominator is not zero, and `None` otherwise.
#[verifier::external_body]
pub(crate) fn fixed_mul_floor(x: u128, y: u128, denominator: u128) -> (r: Option<u128>)
    ensures
        r == mul_div_floor_spec(x, y, denominator),
{
    x.fixed_mul_floor(y, denominator)
}

} // verus!

use vstd::prelude::*;
use crate::math::{sat_mul, sat_mul_spec, sat_add_spec};

verus! {

/// The fee split that `calculate_fee_split` returns: `(total, protocol, manager)`,
/// each part `amount * bps / 10_000` with the product saturating at `u128::MAX`.
pub open spec fn fee_split_spec(amount: u128, protocol_fee_bps: u32, manager_fee_bps: u32) -> (u128, u128, u128) {
    let protocol = (sat_mul_spec(amount, protocol_fee_bps as u128) / 10_000) as u128;
    let manager = (sat_mul_spec(amount, manager_fee_bps as u128) / 10_000) as u128;
    (sat_add_spec(protocol, manager), protocol, manager)
}

/// Splits an amount into total, protocol, and manager fees using basis points.
///
/// Returns `(total_fee, protocol_fee, manager_fee)`.
pub fn calculate_fee_split(amount: u128, protocol_fee_bps: u32, manager_fee_bps: u32) -> (r: (u128, u128, u128))
    ensures
        r == fee_split_spec(amount, protocol_fee_bps, manager_fee_bps),
        r.1 == (if amount * protocol_fee_bps > u128::MAX { u128::MAX as int } else { amount * protocol_fee_bps }) / 10_000,
        r.2 == (if amount * manager_fee_bps > u128::MAX { u128::MAX as int } else { amount * manager_fee_bps }) / 10_000,
        r.0 == (if r.1 + r.2 > u128::MAX { u128::MAX as int } else { r.1 + r.2 }),
{
    if amount == 0 || (protocol_fee_bps == 0 && manager_fee_bps == 0) {
        proof {
            assert(amount * (protocol_fee_bps as u128) == 0 || protocol_fee_bps == 0);
            assert(amount * (manager_fee_bps as u128) == 0 || manager_fee_bps == 0);
            assert(sat_mul_spec(amount, protocol_fee_bps as u128) == 0);
            assert(sat_mul_spec(amount, manager_fee_bps as u128) == 0);
        }
        return (0, 0, 0);
    }
    let protocol_fee = sat_mul(amount, protocol_fee_bps as u128) / 10_000;
    let manager_fee = sat_mul(amount, manager_fee_bps as u128) / 10_000;
    let total_fee = protocol_fee.saturating_add(manager_fee);
    (total_fee, protocol_fee, manager_fee)
}

proof fn lemma_part_bounded(amount: u128, bps: u32)
    ensures
        sat_mul_spec(amount, bps as u128) / 10_000 <= amount * bps / 10_000,
        sat_mul_spec(amount, bps as u128) / 10_000 <= u128::MAX / 10_000,
{
    let p = sat_mul_spec(amount, bps as u128) as int;
    assert(p <= amount * bps);
    assert(p <= u128::MAX);
    vstd::arithmetic::div_mod::lemma_div_is_ordered(p, amount * bps, 10_000);
    vstd::arithmetic::div_mod::lemma_div_is_ordered(p, u128::MAX as int, 10_000);
}

/// Each part of the fee split depends on the amount and its own rate only:
/// the protocol part is `min(amount * protocol_fee_bps, u128::MAX) / 10_000`
/// and the manager part `min(amount * manager_fee_bps, u128::MAX) / 10_000`,
/// whatever the other rate is (a zero protocol rate still charges the
/// manager fee, and the reverse).
pub proof fn lemma_fee_parts_independent(amount: u128, protocol_fee_bps: u32, manager_fee_bps: u32, other_bps: u32)
    ensures
        fee_split_spec(amount, protocol_fee_bps, manager_fee_bps).1
            == (if amount * protocol_fee_bps > u128::MAX { u128::MAX as int } else { amount * protocol_fee_bps }) / 10_000,
        fee_split_spec(amount, protocol_fee_bps, manager_fee_bps).2
            == (if amount * manager_fee_bps > u128::MAX { u128::MAX as int } else { amount * manager_fee_bps }) / 10_000,
        fee_split_spec(amount, protocol_fee_bps, manager_fee_bps).1 == fee_split_spec(amount, protocol_fee_bps, other_bps).1,
        fee_split_spec(amount, protocol_fee_bps, manager_fee_bps).2 == fee_split_spec(amount, other_bps, manager_fee_bps).2,
{
    lemma_part_bounded(amount, protocol_fee_bps);
    lemma_part_bounded(amount, manager_fee_bps);
}

/// The total fee is always exactly the protocol part plus the manager part,
/// and when the two rates together are at most 100% the total fee never
/// exceeds the amount it is taken from.
pub proof fn lemma_fee_split_parts(amount: u128, protocol_fee_bps: u32, manager_fee_bps: u32)
    ensures
        ({
            let (t, p, m) = fee_split_spec(amount, protocol_fee_bps, manager_fee_bps);
            &&& t == p + m
            &&& p <= amount * protocol_fee_bps / 10_000
            &&& m <= amount * manager_fee_bps / 10_000
            &&& protocol_fee_bps + manager_fee_bps <= 10_000 ==> t <= amount
        }),
{
    lemma_part_bounded(amount, protocol_fee_bps);
    lemma_part_bounded(amount, manager_fee_bps);
    let a = amount as int;
    let pb = protocol_fee_bps as int;
    let mb = manager_fee_bps as int;
    if pb + mb <= 10_000 {
        assert((a * pb) / 10_000 + (a * mb) / 10_000 <= a) by (nonlinear_arith)
            requires a >= 0, pb >= 0, mb >= 0, pb + mb <= 10_000;
    }
}

} // verus!

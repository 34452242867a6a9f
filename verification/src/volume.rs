//! Monthly trading-volume buckets and the volume fee tiers of the index fund.

use vstd::prelude::*;
use crate::errors::IndexFundError;

verus! {

/// Thirty days in seconds.
pub const THIRTY_DAY: u64 = 2_592_000;

/// One fee tier: from `min_monthly_volume` on, these rates apply.
#[derive(Debug, Clone, Copy, PartialEq, Eq, Structural)]
pub struct VolumeFeeTier {
    pub min_monthly_volume: u128,
    pub protocol_fee_bps: u32,
    pub manager_fee_bps: u32,
}

/// The 30-day bucket a ledger timestamp falls in.
pub fn get_month_bucket(ts: u64) -> (r: u64)
    ensures
        r == ts / THIRTY_DAY,
{
    ts / THIRTY_DAY
}

/// The tier that applies to `volume`: among the tiers whose minimum volume
/// the volume reaches, the one with the greatest minimum (the later one of
/// equal minimums); `None` when no tier is reached.
pub open spec fn tier_for_volume(tiers: Seq<VolumeFeeTier>, volume: u128) -> Option<VolumeFeeTier>
    decreases tiers.len(),
{
    if tiers.len() == 0 {
        None
    } else {
        let prev = tier_for_volume(tiers.drop_last(), volume);
        let t = tiers.last();
        if volume >= t.min_monthly_volume && (prev is None || t.min_monthly_volume >= prev->Some_0.min_monthly_volume) {
            Some(t)
        } else {
            prev
        }
    }
}

/// `(protocol_fee_bps, manager_fee_bps)` of the tier that applies to
/// `volume`, or `(0, 0)` when no tier is reached.
pub open spec fn tier_fee_bps_spec(tiers: Seq<VolumeFeeTier>, volume: u128) -> (u32, u32) {
    match tier_for_volume(tiers, volume) {
        Some(t) => (t.protocol_fee_bps, t.manager_fee_bps),
        None => (0, 0),
    }
}

/// Resolves `(protocol_fee_bps, manager_fee_bps)` for a user's monthly volume
/// from the configured tiers: the highest tier whose minimum volume is
/// reached wins.
pub fn get_volume_tier_fee_bps(tiers: &Vec<VolumeFeeTier>, current_volume: u128) -> (r: (u32, u32))
    ensures
        r == tier_fee_bps_spec(tiers@, current_volume),
{
    let mut chosen: Option<VolumeFeeTier> = None;
    let mut i: usize = 0;
    while i < tiers.len()
        invariant
            i <= tiers@.len(),
            chosen == tier_for_volume(tiers@.subrange(0, i as int), current_volume),
        decreases tiers@.len() - i,
    {
        proof {
            assert(tiers@.subrange(0, i + 1).drop_last() =~= tiers@.subrange(0, i as int));
        }
        let tier = tiers[i];
        if current_volume >= tier.min_monthly_volume {
            match chosen {
                None => { chosen = Some(tier); },
                Some(c) => {
                    if tier.min_monthly_volume >= c.min_monthly_volume {
                        chosen = Some(tier);
                    }
                },
            }
        }
        i = i + 1;
    }
    proof {
        assert(tiers@.subrange(0, i as int) =~= tiers@);
    }
    match chosen {
        Some(t) => (t.protocol_fee_bps, t.manager_fee_bps),
        None => (0, 0),
    }
}

/// The tier chosen for a volume is one of the tiers, its minimum is reached,
/// and no reached tier has a greater minimum; no tier is chosen only when the
/// volume reaches none.
pub proof fn lemma_tier_for_volume_is_highest_reached(tiers: Seq<VolumeFeeTier>, volume: u128)
    ensures
        match tier_for_volume(tiers, volume) {
            Some(t) => {
                &&& tiers.contains(t)
                &&& volume >= t.min_monthly_volume
                &&& forall|k: int| 0 <= k < tiers.len() && volume >= #[trigger] tiers[k].min_monthly_volume
                        ==> tiers[k].min_monthly_volume <= t.min_monthly_volume
            },
            None => forall|k: int| 0 <= k < tiers.len() ==> volume < #[trigger] tiers[k].min_monthly_volume,
        },
    decreases tiers.len(),
{
    if tiers.len() > 0 {
        let n = tiers.len() - 1;
        let init = tiers.drop_last();
        let t = tiers.last();
        lemma_tier_for_volume_is_highest_reached(init, volume);
        assert(tiers[n] == t);
        assert forall|k: int| 0 <= k < n implies #[trigger] init[k] == tiers[k] by {}
        match tier_for_volume(init, volume) {
            Some(c) => {
                let j = choose|j: int| 0 <= j < init.len() && init[j] == c;
                assert(tiers[j] == c);
                if volume >= t.min_monthly_volume && t.min_monthly_volume >= c.min_monthly_volume {
                    assert forall|k: int| 0 <= k < tiers.len() && volume >= #[trigger] tiers[k].min_monthly_volume
                        implies tiers[k].min_monthly_volume <= t.min_monthly_volume by {
                        if k < n {
                            assert(init[k] == tiers[k]);
                        }
                    }
                } else {
                    assert forall|k: int| 0 <= k < tiers.len() && volume >= #[trigger] tiers[k].min_monthly_volume
                        implies tiers[k].min_monthly_volume <= c.min_monthly_volume by {
                        if k < n {
                            assert(init[k] == tiers[k]);
                        }
                    }
                }
            },
            None => {
                if volume >= t.min_monthly_volume {
                    assert forall|k: int| 0 <= k < tiers.len() && volume >= #[trigger] tiers[k].min_monthly_volume
                        implies tiers[k].min_monthly_volume <= t.min_monthly_volume by {
                        if k < n {
                            assert(init[k] == tiers[k]);
                        }
                    }
                } else {
                    assert forall|k: int| 0 <= k < tiers.len() implies volume < #[trigger] tiers[k].min_monthly_volume by {
                        if k < n {
                            assert(init[k] == tiers[k]);
                        }
                    }
                }
            },
        }
    }
}

/// The tier schedule in force while none is configured.
pub open spec fn default_tiers_spec() -> Seq<VolumeFeeTier> {
    seq![
        VolumeFeeTier { min_monthly_volume: 0, protocol_fee_bps: 100, manager_fee_bps: 0 },
        VolumeFeeTier { min_monthly_volume: 100_000_000_000, protocol_fee_bps: 80, manager_fee_bps: 0 },
        VolumeFeeTier { min_monthly_volume: 500_000_000_000, protocol_fee_bps: 60, manager_fee_bps: 0 },
        VolumeFeeTier { min_monthly_volume: 1_000_000_000_000, protocol_fee_bps: 40, manager_fee_bps: 0 },
    ]
}

/// Default trade fee tiers: 1% protocol fee, lowered to 0.8%, 0.6% and 0.4%
/// from 10k, 50k and 100k (7-decimal units) of monthly volume.
pub fn default_trade_fee_tiers() -> (r: Vec<VolumeFeeTier>)
    ensures
        r@ == default_tiers_spec(),
{
    let r = vec![
        VolumeFeeTier { min_monthly_volume: 0, protocol_fee_bps: 100, manager_fee_bps: 0 },
        VolumeFeeTier { min_monthly_volume: 10_000 * 1_0000000, protocol_fee_bps: 80, manager_fee_bps: 0 },
        VolumeFeeTier { min_monthly_volume: 50_000 * 1_0000000, protocol_fee_bps: 60, manager_fee_bps: 0 },
        VolumeFeeTier { min_monthly_volume: 100_000 * 1_0000000, protocol_fee_bps: 40, manager_fee_bps: 0 },
    ];
    proof {
        assert(r@ =~= default_tiers_spec());
    }
    r
}

/// Checks a new tier schedule: exactly four tiers are accepted.
pub fn validate_trade_fee_tiers(tiers: &Vec<VolumeFeeTier>) -> (r: Result<(), IndexFundError>)
    ensures
        r is Ok <==> tiers@.len() == 4,
        r is Err ==> r == Err::<(), IndexFundError>(IndexFundError::InvalidAmount),
{
    if tiers.len() == 4 { Ok(()) } else { Err(IndexFundError::InvalidAmount) }
}

/// Checks a manager rate for all tiers: at most 10_000 bps.
pub fn validate_tier_manager_fee(manager_fee_bps: u32) -> (r: Result<(), IndexFundError>)
    ensures
        r is Ok <==> manager_fee_bps <= 10_000,
        r is Err ==> r == Err::<(), IndexFundError>(IndexFundError::InvalidAmount),
{
    if manager_fee_bps <= 10_000 { Ok(()) } else { Err(IndexFundError::InvalidAmount) }
}

/// Adds traded volume to a user's monthly total, saturating.
pub fn add_monthly_volume(current: u128, amount: u128) -> (r: u128)
    ensures
        r == (if current + amount > u128::MAX { u128::MAX } else { (current + amount) as u128 }),
{
    current.saturating_add(amount)
}

/// Under the default schedule the protocol rate falls with the monthly
/// volume: 100 bps below 10k, 80 bps from 10k, 60 bps from 50k and 40 bps
/// from 100k (7-decimal units), never a manager fee.
pub proof fn lemma_default_tiers_rate(v: u128)
    ensures
        tier_fee_bps_spec(default_tiers_spec(), v) == (
            if v < 100_000_000_000 { (100u32, 0u32) }
            else if v < 500_000_000_000 { (80u32, 0u32) }
            else if v < 1_000_000_000_000 { (60u32, 0u32) }
            else { (40u32, 0u32) }),
{
    reveal_with_fuel(tier_for_volume, 5);
    let d = default_tiers_spec();
    assert(d.drop_last().drop_last().drop_last().drop_last() =~= Seq::<VolumeFeeTier>::empty());
}

} // verus!

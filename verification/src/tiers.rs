//! Volume-based protocol fee tiers of the factory, with a per-user cache.

use vstd::prelude::*;

verus! {

/// Seconds a cached tier calculation stays fresh for `get_user_tier_data`.
pub const TIER_CACHE_TTL: u64 = 3600;

/// A user's volume change that forces a tier recalculation regardless of the
/// relative change (10_000 in 7-decimal units).
pub const ABSOLUTE_VOLUME_CHANGE_THRESHOLD: u128 = 100_000_000_000;

/// Fee rate used when the schedule has neither the threshold nor a zero tier.
pub const FALLBACK_FEE_RATE_BPS: u32 = 10;

/// One tier of the factory's fee schedule: from `threshold` of 30-day volume
/// on, `rate_bps` applies.
#[derive(Debug, Clone, Copy, PartialEq, Eq, Structural)]
pub struct TierRate {
    pub threshold: u128,
    pub rate_bps: u32,
}

/// The factory's tier calculator: maps a user's 30-day volume to a tier
/// of the fee schedule and caches the result.
#[derive(Debug, Clone, Copy)]
pub struct TierCalculator;

/// Cached tier calculation of a user.
#[derive(Debug, Clone, Copy, PartialEq, Eq, Structural)]
pub struct UserTierData {
    pub current_tier_threshold: u128,
    pub current_fee_rate_bps: u32,
    pub total_30_day_volume: u128,
    pub last_calculated: u64,
    pub last_volume_update: u64,
}

/// Each threshold is listed once.
pub open spec fn thresholds_distinct(s: Seq<TierRate>) -> bool {
    forall|i: int, j: int| 0 <= i < s.len() && 0 <= j < s.len() && i != j ==> s[i].threshold != s[j].threshold
}

/// Highest threshold (among those listed) that the volume reaches; zero when
/// none is reached.
pub open spec fn tier_threshold_spec(s: Seq<TierRate>, volume: u128) -> u128
    decreases s.len(),
{
    if s.len() == 0 {
        0
    } else {
        let prev = tier_threshold_spec(s.drop_last(), volume);
        let t = s.last().threshold;
        if volume >= t && t >= prev { t } else { prev }
    }
}

impl TierCalculator {
    /// Determines the tier threshold a 30-day volume falls under.
    pub fn determine_user_tier_threshold(tier_rates: &Vec<TierRate>, volume_usd: u128) -> (r: u128)
        ensures
            r == tier_threshold_spec(tier_rates@, volume_usd),
    {
        let mut applicable: u128 = 0;
        let mut i: usize = 0;
        while i < tier_rates.len()
            invariant
                i <= tier_rates@.len(),
                applicable == tier_threshold_spec(tier_rates@.subrange(0, i as int), volume_usd),
            decreases tier_rates@.len() - i,
        {
            proof {
                assert(tier_rates@.subrange(0, i + 1).drop_last() =~= tier_rates@.subrange(0, i as int));
            }
            let t = tier_rates[i].threshold;
            if volume_usd >= t && t >= applicable {
                applicable = t;
            }
            i = i + 1;
        }
        proof {
            assert(tier_rates@.subrange(0, i as int) =~= tier_rates@);
        }
        applicable
    }
}

pub open spec fn has_threshold(s: Seq<TierRate>, t: u128) -> bool {
    exists|i: int| 0 <= i < s.len() && s[i].threshold == t
}

pub open spec fn rate_at(s: Seq<TierRate>, t: u128) -> u32 {
    s[choose|i: int| 0 <= i < s.len() && s[i].threshold == t].rate_bps
}

/// Rate for a threshold: its own rate, else the zero tier's rate, else the
/// fallback rate.
pub open spec fn fee_rate_for_threshold_spec(s: Seq<TierRate>, threshold: u128) -> u32 {
    if has_threshold(s, threshold) {
        rate_at(s, threshold)
    } else if has_threshold(s, 0) {
        rate_at(s, 0)
    } else {
        FALLBACK_FEE_RATE_BPS
    }
}

fn lookup_rate(s: &Vec<TierRate>, t: u128) -> (r: Option<u32>)
    requires
        thresholds_distinct(s@),
    ensures
        match r {
            Some(v) => has_threshold(s@, t) && v == rate_at(s@, t),
            None => !has_threshold(s@, t),
        },
{
    let mut i: usize = 0;
    while i < s.len()
        invariant
            i <= s@.len(),
            thresholds_distinct(s@),
            forall|j: int| 0 <= j < i ==> s@[j].threshold != t,
        decreases s@.len() - i,
    {
        if s[i].threshold == t {
            proof {
                assert(has_threshold(s@, t));
                let k = choose|k: int| 0 <= k < s@.len() && s@[k].threshold == t;
                if k != i as int {
                    assert(s@[k].threshold != s@[i as int].threshold);
                }
            }
            return Some(s[i].rate_bps);
        }
        i = i + 1;
    }
    None
}

impl TierCalculator {
    /// Fee rate (bps) of a tier threshold.
    pub fn get_fee_rate_for_threshold(tier_rates: &Vec<TierRate>, threshold: u128) -> (r: u32)
        requires
            thresholds_distinct(tier_rates@),
        ensures
            r == fee_rate_for_threshold_spec(tier_rates@, threshold),
    {
        match lookup_rate(tier_rates, threshold) {
            Some(rate) => rate,
            None => match lookup_rate(tier_rates, 0) {
                Some(rate) => rate,
                None => FALLBACK_FEE_RATE_BPS,
            },
        }
    }
}

/// A schedule is valid when it is not empty, no rate exceeds 10_000 bps and
/// it has a tier at zero volume.
pub open spec fn valid_tier_config_spec(s: Seq<TierRate>) -> bool {
    &&& s.len() > 0
    &&& forall|i: int| 0 <= i < s.len() ==> s[i].rate_bps <= 10_000
    &&& has_threshold(s, 0)
}

impl TierCalculator {
    /// Validates a fee tier schedule.
    pub fn validate_tier_config(tier_rates: &Vec<TierRate>) -> (r: bool)
        ensures
            r == valid_tier_config_spec(tier_rates@),
    {
        if tier_rates.len() == 0 {
            return false;
        }
        let mut i: usize = 0;
        let mut has_zero = false;
        while i < tier_rates.len()
            invariant
                i <= tier_rates@.len(),
                forall|j: int| 0 <= j < i ==> tier_rates@[j].rate_bps <= 10_000,
                has_zero == exists|j: int| 0 <= j < i && tier_rates@[j].threshold == 0,
            decreases tier_rates@.len() - i,
        {
            if tier_rates[i].rate_bps > 10_000 {
                return false;
            }
            if tier_rates[i].threshold == 0 {
                has_zero = true;
            }
            i = i + 1;
        }
        has_zero
    }
}

/// A fresh tier calculation for a 30-day volume at `now`.
pub open spec fn compute_tier_spec(s: Seq<TierRate>, volume: u128, now: u64) -> UserTierData {
    let threshold = tier_threshold_spec(s, volume);
    UserTierData {
        current_tier_threshold: threshold,
        current_fee_rate_bps: fee_rate_for_threshold_spec(s, threshold),
        total_30_day_volume: volume,
        last_calculated: now,
        last_volume_update: now,
    }
}

impl TierCalculator {
    /// Calculates a user's tier data from their 30-day volume.
    pub fn compute_user_tier(tier_rates: &Vec<TierRate>, volume_usd: u128, now: u64) -> (r: UserTierData)
        requires
            thresholds_distinct(tier_rates@),
        ensures
            r == compute_tier_spec(tier_rates@, volume_usd, now),
    {
        let threshold = Self::determine_user_tier_threshold(tier_rates, volume_usd);
        let fee_rate = Self::get_fee_rate_for_threshold(tier_rates, threshold);
        UserTierData {
            current_tier_threshold: threshold,
            current_fee_rate_bps: fee_rate,
            total_30_day_volume: volume_usd,
            last_calculated: now,
            last_volume_update: now,
        }
    }
}

impl TierCalculator {
    /// A user's protocol fee rate: the cached rate whenever a cache entry
    /// exists (whatever its age), otherwise a fresh calculation, which becomes
    /// the new cache entry. Returns the rate and the cache entry to store, if any.
    pub fn get_user_fee_rate(tier_rates: &Vec<TierRate>, cache: Option<UserTierData>, volume_usd: u128, now: u64)
        -> (r: (u32, Option<UserTierData>))
        requires
            thresholds_distinct(tier_rates@),
        ensures
            match cache {
                Some(c) => r == (c.current_fee_rate_bps, None::<UserTierData>),
                None => r == (compute_tier_spec(tier_rates@, volume_usd, now).current_fee_rate_bps,
                    Some(compute_tier_spec(tier_rates@, volume_usd, now))),
            },
    {
        match cache {
            Some(c) => (c.current_fee_rate_bps, None),
            None => {
                let data = Self::compute_user_tier(tier_rates, volume_usd, now);
                (data.current_fee_rate_bps, Some(data))
            },
        }
    }
}

impl TierCalculator {
    /// A user's tier data: the cache when less than an hour old, otherwise a
    /// fresh calculation (to be stored as the new cache entry).
    pub fn get_user_tier_data(tier_rates: &Vec<TierRate>, cache: Option<UserTierData>, volume_usd: u128, now: u64)
        -> (r: (UserTierData, bool))
        requires
            thresholds_distinct(tier_rates@),
        ensures
            match cache {
                Some(c) if (if now >= c.last_calculated { now - c.last_calculated } else { 0 }) < TIER_CACHE_TTL => r == (c, false),
                _ => r == (compute_tier_spec(tier_rates@, volume_usd, now), true),
            },
    {
        if let Some(c) = cache {
            let cache_age = now.saturating_sub(c.last_calculated);
            if cache_age < TIER_CACHE_TTL {
                return (c, false);
            }
        }
        (Self::compute_user_tier(tier_rates, volume_usd, now), true)
    }
}

/// Whether a new 30-day volume invalidates a cached tier: it does when the
/// volume moved by more than a tenth of the cached volume or by more than
/// the absolute threshold.
pub open spec fn cache_stale_spec(cached_volume: u128, new_volume_usd: u128) -> bool {
    let change = if new_volume_usd > cached_volume { new_volume_usd - cached_volume } else { cached_volume - new_volume_usd };
    change > cached_volume / 10 || change > ABSOLUTE_VOLUME_CHANGE_THRESHOLD
}

impl TierCalculator {
    /// The cache entry kept after a volume update: dropped when the volume
    /// moved too much (see `cache_stale_spec`), kept otherwise.
    pub fn invalidate_user_cache(cache: Option<UserTierData>, new_volume_usd: u128) -> (r: Option<UserTierData>)
        ensures
            r == (match cache {
                Some(c) => if cache_stale_spec(c.total_30_day_volume, new_volume_usd) { None } else { Some(c) },
                None => None::<UserTierData>,
            }),
    {
        match cache {
            Some(cached_data) => {
                let volume_change = if new_volume_usd > cached_data.total_30_day_volume {
                    new_volume_usd - cached_data.total_30_day_volume
                } else {
                    cached_data.total_30_day_volume - new_volume_usd
                };
                let change_threshold = cached_data.total_30_day_volume / 10;
                if volume_change > change_threshold || volume_change > ABSOLUTE_VOLUME_CHANGE_THRESHOLD {
                    None
                } else {
                    Some(cached_data)
                }
            },
            None => None,
        }
    }
}

/// The tier threshold chosen for a volume is never above the volume, and a
/// larger volume never falls into a lower tier.
pub proof fn lemma_tier_threshold_monotone(s: Seq<TierRate>, v1: u128, v2: u128)
    requires
        v1 <= v2,
    ensures
        tier_threshold_spec(s, v1) <= v1,
        tier_threshold_spec(s, v1) <= tier_threshold_spec(s, v2),
    decreases s.len(),
{
    if s.len() > 0 {
        lemma_tier_threshold_monotone(s.drop_last(), v1, v2);
    }
}

} // verus!

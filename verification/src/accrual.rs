//! Time-based management and protocol fee accrual of the index token.
//!
//! Fees accrue lazily per holder: a flat per-year amount for every full year
//! that elapsed since the holder's last update, and are collected into the
//! index-wide totals once they reach the minimum fee threshold.

use vstd::prelude::*;

verus! {

/// Seconds in a (365-day) year.
pub const SECONDS_PER_YEAR: u64 = 31_536_000;

/// Minimum collectable fee when no factory supplies one (1 token at 6 decimals).
pub const DEFAULT_MINIMUM_FEE_THRESHOLD: u128 = 1_000_000;

/// Per-holder fee tracking state.
#[derive(Debug, Clone, Copy, PartialEq, Eq, Structural)]
pub struct UserFeeState {
    pub balance: i128,
    pub last_fee_update: u64,
    pub accrued_manager_fees: u128,
    pub accrued_protocol_fees: u128,
}

/// Index-wide fee totals.
#[derive(Debug, Clone, Copy, PartialEq, Eq, Structural)]
pub struct FeeTotals {
    pub accumulated_manager_fees: u128,
    pub accumulated_protocol_fees: u128,
    pub total_fees: u128,
    pub last_fee_collection: u64,
}

/// Fee parameters in force for the index.
#[derive(Debug, Clone, Copy, PartialEq, Eq, Structural)]
pub struct FeeSettings {
    /// Whether the factory has fee collection enabled for this index.
    pub fee_enabled: bool,
    /// Manager fee charged per full year.
    pub manager_fee_amount: u128,
    /// Holders at or below this share balance accrue no fees.
    pub minimum_shares: u128,
    /// Accrued fees below this total are not collected.
    pub minimum_fee_threshold: u128,
}

/// How shares leave a holder in `collect_fees_before_operation`.
#[derive(Debug, Clone, Copy, PartialEq, Eq, Structural)]
pub enum FeeOperation {
    /// Shares are destroyed.
    Burn,
    /// Shares move to another holder, whose state is given.
    TransferTo(UserFeeState),
    /// Shares move back to the same holder.
    TransferToSelf,
}

pub open spec fn max0_spec(x: int) -> int {
    if x < 0 { 0 } else { x }
}

/// `a - b` clamped to the `i128` range.
pub open spec fn sat_sub_i128_spec(a: i128, b: i128) -> i128 {
    if a - b < i128::MIN { i128::MIN } else if a - b > i128::MAX { i128::MAX } else { (a - b) as i128 }
}

fn sat_sub_i128(a: i128, b: i128) -> (r: i128)
    ensures
        r == sat_sub_i128_spec(a, b),
{
    if b >= 0 {
        if a < i128::MIN + b { i128::MIN } else { a - b }
    } else {
        if a > i128::MAX + b { i128::MAX } else { a - b }
    }
}

impl FeeSettings {
    /// Settings used when no factory is connected: fees enabled and the
    /// default minimum fee threshold.
    pub fn without_factory(manager_fee_amount: u128, minimum_shares: u128) -> (s: FeeSettings)
        ensures
            s == (FeeSettings {
                fee_enabled: true,
                manager_fee_amount,
                minimum_shares,
                minimum_fee_threshold: DEFAULT_MINIMUM_FEE_THRESHOLD,
            }),
    {
        FeeSettings {
            fee_enabled: true,
            manager_fee_amount,
            minimum_shares,
            minimum_fee_threshold: DEFAULT_MINIMUM_FEE_THRESHOLD,
        }
    }
}

/// Protocol fee rate of a holder: zero without a factory; with one, the
/// holder's tier rate when the factory gave one, else the factory's flat
/// protocol fee amount.
pub fn get_protocol_fee_amount_from_factory(factory_connected: bool, user_fee_rate: Option<u32>, protocol_fee_amount: u32) -> (r: u32)
    ensures
        r == (if !factory_connected { 0 } else {
            match user_fee_rate { Some(rate) => rate, None => protocol_fee_amount }
        }),
{
    if !factory_connected {
        return 0;
    }
    match user_fee_rate {
        Some(rate) => rate,
        None => protocol_fee_amount,
    }
}

/// Whether fees are enabled for the index: as the factory says, enabled
/// when no factory is connected (`None`).
pub fn get_fee_enabled_from_factory(factory_reply: Option<bool>) -> (r: bool)
    ensures
        r == (match factory_reply { Some(b) => b, None => true }),
{
    match factory_reply {
        Some(b) => b,
        None => true,
    }
}

/// Minimum collectable fee: as the factory says, the default without one.
pub fn get_minimum_fee_threshold(factory_reply: Option<u128>) -> (r: u128)
    ensures
        r == (match factory_reply { Some(t) => t, None => DEFAULT_MINIMUM_FEE_THRESHOLD }),
{
    match factory_reply {
        Some(t) => t,
        None => DEFAULT_MINIMUM_FEE_THRESHOLD,
    }
}

/// A holder's fee state: the stored one, or a fresh one stamped `now`.
pub fn get_user_fee_state(stored: Option<UserFeeState>, now: u64) -> (r: UserFeeState)
    ensures
        r == (match stored {
            Some(s) => s,
            None => UserFeeState { balance: 0, last_fee_update: now, accrued_manager_fees: 0, accrued_protocol_fees: 0 },
        }),
{
    match stored {
        Some(s) => s,
        None => UserFeeState { balance: 0, last_fee_update: now, accrued_manager_fees: 0, accrued_protocol_fees: 0 },
    }
}

/// Full years elapsed between two timestamps.
pub open spec fn years_between(last: u64, now: u64) -> int {
    (now - last) / (SECONDS_PER_YEAR as int)
}

/// Manager and protocol fees accrued by a holder of `balance` shares between
/// `last` and `now`: each rate times the number of full years elapsed, or
/// zero when fees are disabled, no time passed, the balance is not positive,
/// the rate is zero or the balance does not exceed the minimum.
pub open spec fn accrued_fees_spec(settings: FeeSettings, protocol_fee_rate_bps: u32, balance: i128, last: u64, now: u64) -> (int, int) {
    if !settings.fee_enabled || now <= last || balance <= 0 {
        (0, 0)
    } else {
        let years = years_between(last, now);
        let manager = if settings.manager_fee_amount > 0 && balance > settings.minimum_shares {
            settings.manager_fee_amount * years
        } else {
            0
        };
        let protocol = if protocol_fee_rate_bps > 0 && balance > settings.minimum_shares {
            protocol_fee_rate_bps * years
        } else {
            0
        };
        (manager, protocol)
    }
}

/// The accrued amounts fit the `u128` arithmetic of the contract.
pub open spec fn accrual_fits(settings: FeeSettings, protocol_fee_rate_bps: u32, balance: i128, last: u64, now: u64) -> bool {
    let (m, p) = accrued_fees_spec(settings, protocol_fee_rate_bps, balance, last, now);
    m <= u128::MAX && p <= u128::MAX
}

/// Calculates the time-based fees a holder accrued; returns
/// `(manager_fee, protocol_fee)`.
pub fn calculate_accrued_fees(
    settings: &FeeSettings,
    protocol_fee_rate_bps: u32,
    user_balance: i128,
    last_update_timestamp: u64,
    current_timestamp: u64,
) -> (r: (u128, u128))
    requires
        accrual_fits(*settings, protocol_fee_rate_bps, user_balance, last_update_timestamp, current_timestamp),
    ensures
        r.0 == accrued_fees_spec(*settings, protocol_fee_rate_bps, user_balance, last_update_timestamp, current_timestamp).0,
        r.1 == accrued_fees_spec(*settings, protocol_fee_rate_bps, user_balance, last_update_timestamp, current_timestamp).1,
        user_balance <= settings.minimum_shares ==> r.0 == 0 && r.1 == 0,
{
    if !settings.fee_enabled {
        return (0, 0);
    }
    if current_timestamp <= last_update_timestamp || user_balance <= 0 {
        return (0, 0);
    }
    let time_elapsed = current_timestamp - last_update_timestamp;
    let user_balance_u128 = user_balance as u128;
    let years = (time_elapsed as u128) / (SECONDS_PER_YEAR as u128);
    let manager_fee_rate = settings.manager_fee_amount;
    let protocol_fee_rate = protocol_fee_rate_bps as u128;
    let manager_fee = if manager_fee_rate > 0 && user_balance_u128 > settings.minimum_shares {
        manager_fee_rate * years
    } else {
        0
    };
    let protocol_fee = if protocol_fee_rate > 0 && user_balance_u128 > settings.minimum_shares {
        protocol_fee_rate * years
    } else {
        0
    };
    (manager_fee, protocol_fee)
}

/// Pending fees of a holder at `now`: what was accrued before plus what
/// accrued since the last update, as `(manager, protocol)`.
pub open spec fn pending_fees_spec(s: UserFeeState, settings: FeeSettings, rate: u32, now: u64) -> (int, int) {
    let (m, p) = accrued_fees_spec(settings, rate, s.balance, s.last_fee_update, now);
    (s.accrued_manager_fees + m, s.accrued_protocol_fees + p)
}

/// The holder's fees can be accrued at `now` without overflow.
pub open spec fn accrual_ok(s: UserFeeState, settings: FeeSettings, rate: u32, now: u64) -> bool {
    let (m, p) = pending_fees_spec(s, settings, rate, now);
    &&& accrual_fits(settings, rate, s.balance, s.last_fee_update, now)
    &&& m + p <= u128::MAX
}

/// Index-wide totals after collecting `(m, p)`.
pub open spec fn totals_after_spec(t: FeeTotals, m: int, p: int, now: u64) -> FeeTotals {
    if m > 0 || p > 0 {
        FeeTotals {
            accumulated_manager_fees: (t.accumulated_manager_fees + m) as u128,
            accumulated_protocol_fees: (t.accumulated_protocol_fees + p) as u128,
            total_fees: (t.total_fees + m + p) as u128,
            last_fee_collection: now,
        }
    } else {
        t
    }
}

/// Index-wide totals can absorb `(m, p)` without overflow.
pub open spec fn totals_fit(t: FeeTotals, m: int, p: int) -> bool {
    &&& t.accumulated_manager_fees + m <= u128::MAX
    &&& t.accumulated_protocol_fees + p <= u128::MAX
    &&& t.total_fees + m + p <= u128::MAX
}

/// What `collect_accrued_fees_if_any` collects: all pending fees when they
/// reach the minimum threshold, nothing otherwise.
pub open spec fn collected_if_any_spec(s: UserFeeState, settings: FeeSettings, rate: u32, now: u64) -> (int, int) {
    let (m, p) = pending_fees_spec(s, settings, rate, now);
    if m + p >= settings.minimum_fee_threshold { (m, p) } else { (0, 0) }
}

/// Holder state after `collect_accrued_fees_if_any`.
pub open spec fn state_after_collect_spec(s: UserFeeState, settings: FeeSettings, rate: u32, now: u64) -> UserFeeState {
    let (m, p) = pending_fees_spec(s, settings, rate, now);
    if m + p >= settings.minimum_fee_threshold {
        UserFeeState { balance: s.balance, last_fee_update: now, accrued_manager_fees: 0, accrued_protocol_fees: 0 }
    } else {
        UserFeeState { balance: s.balance, last_fee_update: now, accrued_manager_fees: m as u128, accrued_protocol_fees: p as u128 }
    }
}

/// Collects a holder's accrued fees into the index totals when they meet the
/// minimum threshold; the holder's update time moves to `now` either way.
/// Returns `(manager_fee_collected, protocol_fee_collected)`.
pub fn collect_accrued_fees_if_any(
    state: &mut UserFeeState,
    totals: &mut FeeTotals,
    settings: &FeeSettings,
    protocol_fee_rate_bps: u32,
    now: u64,
) -> (r: (u128, u128))
    requires
        accrual_ok(*old(state), *settings, protocol_fee_rate_bps, now),
        totals_fit(*old(totals), collected_if_any_spec(*old(state), *settings, protocol_fee_rate_bps, now).0,
            collected_if_any_spec(*old(state), *settings, protocol_fee_rate_bps, now).1),
    ensures
        r.0 == collected_if_any_spec(*old(state), *settings, protocol_fee_rate_bps, now).0,
        r.1 == collected_if_any_spec(*old(state), *settings, protocol_fee_rate_bps, now).1,
        *final(state) == state_after_collect_spec(*old(state), *settings, protocol_fee_rate_bps, now),
        *final(totals) == totals_after_spec(*old(totals), r.0 as int, r.1 as int, now),
{
    let (new_manager_fee, new_protocol_fee) = calculate_accrued_fees(
        settings, protocol_fee_rate_bps, state.balance, state.last_fee_update, now);
    state.accrued_manager_fees = state.accrued_manager_fees + new_manager_fee;
    state.accrued_protocol_fees = state.accrued_protocol_fees + new_protocol_fee;
    let total_accrued = state.accrued_manager_fees + state.accrued_protocol_fees;
    let collected = if total_accrued >= settings.minimum_fee_threshold {
        let manager_collected = state.accrued_manager_fees;
        let protocol_collected = state.accrued_protocol_fees;
        state.accrued_manager_fees = 0;
        state.accrued_protocol_fees = 0;
        if manager_collected > 0 || protocol_collected > 0 {
            totals.accumulated_manager_fees = totals.accumulated_manager_fees + manager_collected;
            totals.accumulated_protocol_fees = totals.accumulated_protocol_fees + protocol_collected;
            totals.total_fees = totals.total_fees + manager_collected + protocol_collected;
            totals.last_fee_collection = now;
        }
        (manager_collected, protocol_collected)
    } else {
        (0, 0)
    };
    state.last_fee_update = now;
    collected
}

/// Balance `b + change` floored at zero.
pub open spec fn tracked_balance_spec(b: i128, change: i128) -> i128 {
    max0_spec(b + change) as i128
}

/// Records a balance change of a holder (mint or transfer) at `now`; the
/// balance never goes below zero.
pub fn initialize_or_update_user_tracking(state: &mut UserFeeState, balance_change: i128, now: u64)
    requires
        i128::MIN <= old(state).balance + balance_change <= i128::MAX,
    ensures
        *final(state) == (UserFeeState {
            balance: tracked_balance_spec(old(state).balance, balance_change),
            last_fee_update: now,
            ..*old(state)
        }),
{
    let b = state.balance + balance_change;
    state.balance = if b < 0 { 0 } else { b };
    state.last_fee_update = now;
}

/// Holder state after `collect_fees_before_action` with `change`.
pub open spec fn state_after_action_spec(s: UserFeeState, settings: FeeSettings, rate: u32, change: i128, now: u64) -> UserFeeState {
    let c = state_after_collect_spec(s, settings, rate, now);
    let (m, p) = collected_if_any_spec(s, settings, rate, now);
    let reduced = sat_sub_i128_spec(c.balance, ((m + p) as u128) as i128);
    UserFeeState { balance: tracked_balance_spec(reduced, change), last_fee_update: now, ..c }
}

/// The preconditions of `collect_fees_before_action`.
pub open spec fn action_ok(s: UserFeeState, t: FeeTotals, settings: FeeSettings, rate: u32, change: i128, now: u64) -> bool {
    let (m, p) = collected_if_any_spec(s, settings, rate, now);
    let reduced = sat_sub_i128_spec(s.balance, ((m + p) as u128) as i128);
    &&& accrual_ok(s, settings, rate, now)
    &&& totals_fit(t, m, p)
    &&& i128::MIN <= reduced + change <= i128::MAX
}

/// Collects a holder's fees (if over the threshold), deducts what was
/// collected from the holder's tracked balance and then applies the balance
/// change. Returns the collected `(manager, protocol)` fees.
pub fn collect_fees_before_action(
    state: &mut UserFeeState,
    totals: &mut FeeTotals,
    settings: &FeeSettings,
    protocol_fee_rate_bps: u32,
    balance_change: i128,
    now: u64,
) -> (r: (u128, u128))
    requires
        action_ok(*old(state), *old(totals), *settings, protocol_fee_rate_bps, balance_change, now),
    ensures
        r.0 == collected_if_any_spec(*old(state), *settings, protocol_fee_rate_bps, now).0,
        r.1 == collected_if_any_spec(*old(state), *settings, protocol_fee_rate_bps, now).1,
        *final(state) == state_after_action_spec(*old(state), *settings, protocol_fee_rate_bps, balance_change, now),
        *final(totals) == totals_after_spec(*old(totals), r.0 as int, r.1 as int, now),
{
    let (collected_manager, collected_protocol) = collect_accrued_fees_if_any(
        state, totals, settings, protocol_fee_rate_bps, now);
    let total_fees_collected = (collected_manager + collected_protocol) as i128;
    state.balance = sat_sub_i128(state.balance, total_fees_collected);
    initialize_or_update_user_tracking(state, balance_change, now);
    (collected_manager, collected_protocol)
}

/// Fees a holder would pay if collected now, as `(manager, protocol)`;
/// nothing is changed.
pub fn preview_accrued_fees(state: &UserFeeState, settings: &FeeSettings, protocol_fee_rate_bps: u32, now: u64) -> (r: (u128, u128))
    requires
        accrual_ok(*state, *settings, protocol_fee_rate_bps, now),
    ensures
        r.0 == pending_fees_spec(*state, *settings, protocol_fee_rate_bps, now).0,
        r.1 == pending_fees_spec(*state, *settings, protocol_fee_rate_bps, now).1,
{
    let (new_manager_fee, new_protocol_fee) = calculate_accrued_fees(
        settings, protocol_fee_rate_bps, state.balance, state.last_fee_update, now);
    (state.accrued_manager_fees + new_manager_fee, state.accrued_protocol_fees + new_protocol_fee)
}

/// Balance of a holder net of all pending fees (saturating).
pub fn get_effective_balance(state: &UserFeeState, settings: &FeeSettings, protocol_fee_rate_bps: u32, now: u64) -> (r: i128)
    requires
        accrual_ok(*state, *settings, protocol_fee_rate_bps, now),
    ensures
        r == sat_sub_i128_spec(state.balance,
            ((pending_fees_spec(*state, *settings, protocol_fee_rate_bps, now).0
                + pending_fees_spec(*state, *settings, protocol_fee_rate_bps, now).1) as u128) as i128),
{
    let (m, p) = preview_accrued_fees(state, settings, protocol_fee_rate_bps, now);
    let total_pending_fees = m + p;
    sat_sub_i128(state.balance, total_pending_fees as i128)
}

/// Holder state after `force_collect_fees`.
pub open spec fn state_after_force_spec(s: UserFeeState, settings: FeeSettings, rate: u32, now: u64) -> UserFeeState {
    let (m, p) = pending_fees_spec(s, settings, rate, now);
    if m > 0 || p > 0 {
        UserFeeState {
            balance: sat_sub_i128_spec(s.balance, ((m + p) as u128) as i128),
            last_fee_update: now,
            accrued_manager_fees: 0,
            accrued_protocol_fees: 0,
        }
    } else {
        UserFeeState { last_fee_update: now, ..s }
    }
}

/// Collects all pending fees of a holder regardless of the threshold,
/// deducting them from the holder's tracked balance.
pub fn force_collect_fees(
    state: &mut UserFeeState,
    totals: &mut FeeTotals,
    settings: &FeeSettings,
    protocol_fee_rate_bps: u32,
    now: u64,
) -> (r: (u128, u128))
    requires
        accrual_ok(*old(state), *settings, protocol_fee_rate_bps, now),
        totals_fit(*old(totals), pending_fees_spec(*old(state), *settings, protocol_fee_rate_bps, now).0,
            pending_fees_spec(*old(state), *settings, protocol_fee_rate_bps, now).1),
    ensures
        r.0 == pending_fees_spec(*old(state), *settings, protocol_fee_rate_bps, now).0,
        r.1 == pending_fees_spec(*old(state), *settings, protocol_fee_rate_bps, now).1,
        *final(state) == state_after_force_spec(*old(state), *settings, protocol_fee_rate_bps, now),
        *final(totals) == totals_after_spec(*old(totals), r.0 as int, r.1 as int, now),
{
    let (new_manager_fee, new_protocol_fee) = calculate_accrued_fees(
        settings, protocol_fee_rate_bps, state.balance, state.last_fee_update, now);
    state.accrued_manager_fees = state.accrued_manager_fees + new_manager_fee;
    state.accrued_protocol_fees = state.accrued_protocol_fees + new_protocol_fee;
    let manager_collected = state.accrued_manager_fees;
    let protocol_collected = state.accrued_protocol_fees;
    if manager_collected > 0 || protocol_collected > 0 {
        state.balance = sat_sub_i128(state.balance, (manager_collected + protocol_collected) as i128);
        state.accrued_manager_fees = 0;
        state.accrued_protocol_fees = 0;
        totals.accumulated_manager_fees = totals.accumulated_manager_fees + manager_collected;
        totals.accumulated_protocol_fees = totals.accumulated_protocol_fees + protocol_collected;
        totals.total_fees = totals.total_fees + manager_collected + protocol_collected;
        totals.last_fee_collection = now;
    }
    state.last_fee_update = now;
    (manager_collected, protocol_collected)
}


/// Holder state after `collect_fees_before_mint` of `amount` shares.
pub open spec fn state_after_mint_spec(s: UserFeeState, settings: FeeSettings, rate: u32, amount: i128, now: u64) -> UserFeeState {
    let a = state_after_action_spec(s, settings, rate, amount, now);
    UserFeeState { balance: tracked_balance_spec(a.balance, amount), last_fee_update: now, ..a }
}

/// Called by the index token before shares are minted to a holder: collects
/// the holder's fees on the existing balance, applies the mint to the fee
/// state and then records the minted amount once more in the tracking.
pub fn collect_fees_before_mint(
    state: &mut UserFeeState,
    totals: &mut FeeTotals,
    settings: &FeeSettings,
    protocol_fee_rate_bps: u32,
    amount: i128,
    now: u64,
) -> (r: (u128, u128))
    requires
        action_ok(*old(state), *old(totals), *settings, protocol_fee_rate_bps, amount, now),
        i128::MIN <= state_after_action_spec(*old(state), *settings, protocol_fee_rate_bps, amount, now).balance + amount <= i128::MAX,
    ensures
        r.0 == collected_if_any_spec(*old(state), *settings, protocol_fee_rate_bps, now).0,
        r.1 == collected_if_any_spec(*old(state), *settings, protocol_fee_rate_bps, now).1,
        *final(state) == state_after_mint_spec(*old(state), *settings, protocol_fee_rate_bps, amount, now),
        *final(totals) == totals_after_spec(*old(totals), r.0 as int, r.1 as int, now),
{
    let r = collect_fees_before_action(state, totals, settings, protocol_fee_rate_bps, amount, now);
    initialize_or_update_user_tracking(state, amount, now);
    r
}

/// Called by the index token before shares leave `from` (a transfer or a
/// burn): collects the sender's fees, applies `-amount` to the sender twice
/// (once with the collection and once in the tracking update) and credits a
/// distinct recipient with `amount`. Returns the collected `(manager,
/// protocol)` fees and, for a transfer to another holder, the recipient's new
/// state.
pub fn collect_fees_before_operation(
    from: &mut UserFeeState,
    totals: &mut FeeTotals,
    settings: &FeeSettings,
    protocol_fee_rate_bps: u32,
    amount: i128,
    operation: FeeOperation,
    now: u64,
) -> (r: (u128, u128, Option<UserFeeState>))
    requires
        amount != i128::MIN,
        action_ok(*old(from), *old(totals), *settings, protocol_fee_rate_bps, (-amount) as i128, now),
        i128::MIN <= state_after_action_spec(*old(from), *settings, protocol_fee_rate_bps, (-amount) as i128, now).balance - amount <= i128::MAX,
        operation is TransferToSelf ==> i128::MIN <= tracked_balance_spec(
            state_after_action_spec(*old(from), *settings, protocol_fee_rate_bps, (-amount) as i128, now).balance, (-amount) as i128) + amount <= i128::MAX,
        operation matches FeeOperation::TransferTo(t) ==> i128::MIN <= t.balance + amount <= i128::MAX,
    ensures
        r.0 == collected_if_any_spec(*old(from), *settings, protocol_fee_rate_bps, now).0,
        r.1 == collected_if_any_spec(*old(from), *settings, protocol_fee_rate_bps, now).1,
        *final(totals) == totals_after_spec(*old(totals), r.0 as int, r.1 as int, now),
        ({
            let a = state_after_action_spec(*old(from), *settings, protocol_fee_rate_bps, (-amount) as i128, now);
            let once = tracked_balance_spec(a.balance, (-amount) as i128);
            match operation {
                FeeOperation::Burn => {
                    &&& *final(from) == (UserFeeState { balance: once, last_fee_update: now, ..a })
                    &&& r.2 is None
                },
                FeeOperation::TransferToSelf => {
                    &&& *final(from) == (UserFeeState { balance: tracked_balance_spec(once, amount), last_fee_update: now, ..a })
                    &&& r.2 is None
                },
                FeeOperation::TransferTo(t) => {
                    &&& *final(from) == (UserFeeState { balance: once, last_fee_update: now, ..a })
                    &&& r.2 == Some(UserFeeState { balance: tracked_balance_spec(t.balance, amount), last_fee_update: now, ..t })
                },
            }
        }),
{
    let (m, p) = collect_fees_before_action(from, totals, settings, protocol_fee_rate_bps, -amount, now);
    match operation {
        FeeOperation::Burn => {
            initialize_or_update_user_tracking(from, -amount, now);
            (m, p, None)
        },
        FeeOperation::TransferToSelf => {
            initialize_or_update_user_tracking(from, -amount, now);
            initialize_or_update_user_tracking(from, amount, now);
            (m, p, None)
        },
        FeeOperation::TransferTo(t) => {
            let mut recipient = t;
            initialize_or_update_user_tracking(from, -amount, now);
            initialize_or_update_user_tracking(&mut recipient, amount, now);
            (m, p, Some(recipient))
        },
    }
}

/// A holder in a batch: identifier, fee state and personal protocol rate.
#[derive(Debug, Clone, Copy, PartialEq, Eq, Structural)]
pub struct UserFeeAccount {
    pub user: u64,
    pub state: UserFeeState,
    pub protocol_fee_rate_bps: u32,
}

/// Totals and collected sums after collecting from each account in turn.
pub open spec fn batch_spec(accounts: Seq<UserFeeAccount>, t: FeeTotals, settings: FeeSettings, now: u64) -> (FeeTotals, int, int)
    decreases accounts.len(),
{
    if accounts.len() == 0 {
        (t, 0, 0)
    } else {
        let (t1, m1, p1) = batch_spec(accounts.drop_last(), t, settings, now);
        let a = accounts.last();
        let (m, p) = collected_if_any_spec(a.state, settings, a.protocol_fee_rate_bps, now);
        (totals_after_spec(t1, m, p, now), m1 + m, p1 + p)
    }
}

/// Every collection of a batch stays within the `u128` arithmetic.
pub open spec fn batch_ok(accounts: Seq<UserFeeAccount>, t: FeeTotals, settings: FeeSettings, now: u64) -> bool
    decreases accounts.len(),
{
    if accounts.len() == 0 {
        true
    } else {
        let (t1, m1, p1) = batch_spec(accounts.drop_last(), t, settings, now);
        let a = accounts.last();
        let (m, p) = collected_if_any_spec(a.state, settings, a.protocol_fee_rate_bps, now);
        &&& batch_ok(accounts.drop_last(), t, settings, now)
        &&& accrual_ok(a.state, settings, a.protocol_fee_rate_bps, now)
        &&& totals_fit(t1, m, p)
        &&& m1 + m <= u128::MAX
        &&& p1 + p <= u128::MAX
    }
}

/// Collects the fees of every account (each only if over the threshold);
/// returns the summed `(manager, protocol)` fees collected.
pub fn batch_collect_fees(
    accounts: &mut Vec<UserFeeAccount>,
    totals: &mut FeeTotals,
    settings: &FeeSettings,
    now: u64,
) -> (r: (u128, u128))
    requires
        batch_ok(old(accounts)@, *old(totals), *settings, now),
    ensures
        r.0 == batch_spec(old(accounts)@, *old(totals), *settings, now).1,
        r.1 == batch_spec(old(accounts)@, *old(totals), *settings, now).2,
        *final(totals) == batch_spec(old(accounts)@, *old(totals), *settings, now).0,
        final(accounts)@.len() == old(accounts)@.len(),
        forall|i: int| 0 <= i < old(accounts)@.len() ==> #[trigger] final(accounts)@[i] == (UserFeeAccount {
            state: state_after_collect_spec(old(accounts)@[i].state, *settings, old(accounts)@[i].protocol_fee_rate_bps, now),
            ..old(accounts)@[i]
        }),
{
    let ghost orig = accounts@;
    let ghost t0 = *totals;
    let mut total_manager_fees: u128 = 0;
    let mut total_protocol_fees: u128 = 0;
    let mut i: usize = 0;
    proof {
        assert(orig.subrange(0, 0) =~= Seq::<UserFeeAccount>::empty());
    }
    while i < accounts.len()
        invariant
            i <= accounts@.len(),
            accounts@.len() == orig.len(),
            batch_ok(orig, t0, *settings, now),
            ({
                let (t1, m1, p1) = batch_spec(orig.subrange(0, i as int), t0, *settings, now);
                &&& *totals == t1
                &&& total_manager_fees == m1
                &&& total_protocol_fees == p1
            }),
            forall|j: int| 0 <= j < i ==> #[trigger] accounts@[j] == (UserFeeAccount {
                state: state_after_collect_spec(orig[j].state, *settings, orig[j].protocol_fee_rate_bps, now),
                ..orig[j]
            }),
            forall|j: int| i <= j < orig.len() ==> #[trigger] accounts@[j] == orig[j],
        decreases accounts@.len() - i,
    {
        let ghost pre = orig.subrange(0, i + 1);
        proof {
            assert(pre.drop_last() =~= orig.subrange(0, i as int));
            lemma_batch_ok_prefix(orig, (i + 1) as int, t0, *settings, now);
        }
        let mut account = accounts[i];
        let (m, p) = collect_accrued_fees_if_any(&mut account.state, totals, settings, account.protocol_fee_rate_bps, now);
        total_manager_fees = total_manager_fees + m;
        total_protocol_fees = total_protocol_fees + p;
        accounts.set(i, account);
        i = i + 1;
    }
    proof {
        assert(orig.subrange(0, i as int) =~= orig);
    }
    (total_manager_fees, total_protocol_fees)
}

proof fn lemma_batch_ok_prefix(s: Seq<UserFeeAccount>, k: int, t: FeeTotals, settings: FeeSettings, now: u64)
    requires
        batch_ok(s, t, settings, now),
        0 <= k <= s.len(),
    ensures
        batch_ok(s.subrange(0, k), t, settings, now),
    decreases s.len() - k,
{
    if k < s.len() {
        lemma_batch_ok_prefix(s, k + 1, t, settings, now);
        assert(s.subrange(0, k + 1).drop_last() =~= s.subrange(0, k));
    } else {
        assert(s.subrange(0, k) =~= s);
    }
}

/// Users whose pending fees reach the threshold, in order.
pub open spec fn users_with_fees_spec(accounts: Seq<UserFeeAccount>, settings: FeeSettings, now: u64) -> Seq<u64>
    decreases accounts.len(),
{
    if accounts.len() == 0 {
        Seq::empty()
    } else {
        let prev = users_with_fees_spec(accounts.drop_last(), settings, now);
        let a = accounts.last();
        let (m, p) = pending_fees_spec(a.state, settings, a.protocol_fee_rate_bps, now);
        if m + p >= settings.minimum_fee_threshold { prev.push(a.user) } else { prev }
    }
}

/// Lists the users whose pending fees (as previewed) reach the minimum fee
/// threshold, keeping their order.
pub fn get_users_with_accrued_fees(accounts: &Vec<UserFeeAccount>, settings: &FeeSettings, now: u64) -> (r: Vec<u64>)
    requires
        forall|i: int| 0 <= i < accounts@.len() ==> accrual_ok(#[trigger] accounts@[i].state, *settings, accounts@[i].protocol_fee_rate_bps, now),
    ensures
        r@ == users_with_fees_spec(accounts@, *settings, now),
{
    let mut users: Vec<u64> = Vec::new();
    let mut i: usize = 0;
    while i < accounts.len()
        invariant
            i <= accounts@.len(),
            forall|j: int| 0 <= j < accounts@.len() ==> accrual_ok(#[trigger] accounts@[j].state, *settings, accounts@[j].protocol_fee_rate_bps, now),
            users@ == users_with_fees_spec(accounts@.subrange(0, i as int), *settings, now),
        decreases accounts@.len() - i,
    {
        proof {
            assert(accounts@.subrange(0, i + 1).drop_last() =~= accounts@.subrange(0, i as int));
        }
        let a = accounts[i];
        let (m, p) = preview_accrued_fees(&a.state, settings, a.protocol_fee_rate_bps, now);
        if m + p >= settings.minimum_fee_threshold {
            users.push(a.user);
        }
        i = i + 1;
    }
    proof {
        assert(accounts@.subrange(0, i as int) =~= accounts@);
    }
    users
}

/// A holder whose balance does not exceed the minimum share count accrues no
/// fee, neither for the manager nor for the protocol, whatever the rates and
/// the time elapsed.
pub proof fn lemma_no_fee_at_or_below_minimum(settings: FeeSettings, rate: u32, balance: i128, last: u64, now: u64)
    requires
        balance <= settings.minimum_shares,
    ensures
        accrued_fees_spec(settings, rate, balance, last, now).0 == 0,
        accrued_fees_spec(settings, rate, balance, last, now).1 == 0,
{
}

/// Collecting a second time at the same moment collects nothing: after
/// `collect_accrued_fees_if_any` at `now`, a further collection at `now` is
/// possible, returns `(0, 0)` and leaves the index totals as they are.
pub proof fn lemma_collect_idempotent(s: UserFeeState, settings: FeeSettings, rate: u32, now: u64, t: FeeTotals)
    requires
        accrual_ok(s, settings, rate, now),
    ensures
        accrual_ok(state_after_collect_spec(s, settings, rate, now), settings, rate, now),
        collected_if_any_spec(state_after_collect_spec(s, settings, rate, now), settings, rate, now) == (0int, 0int),
        totals_after_spec(t, 0, 0, now) == t,
{
}

/// A forced collection takes exactly the fees that a preview shows, and
/// leaves the holder with no accrued fees.
pub proof fn lemma_force_collect_is_preview(s: UserFeeState, settings: FeeSettings, rate: u32, now: u64)
    requires
        accrual_ok(s, settings, rate, now),
    ensures
        state_after_force_spec(s, settings, rate, now).accrued_manager_fees == 0,
        state_after_force_spec(s, settings, rate, now).accrued_protocol_fees == 0,
        collected_if_any_spec(s, settings, rate, now) == pending_fees_spec(s, settings, rate, now)
            || collected_if_any_spec(s, settings, rate, now) == (0int, 0int),
{
}

/// Collection conserves fees: the index totals grow by exactly what the
/// holder is charged, and the all-time total by their sum.
pub proof fn lemma_collection_conserves(t: FeeTotals, m: u128, p: u128, now: u64)
    requires
        totals_fit(t, m as int, p as int),
    ensures
        totals_after_spec(t, m as int, p as int, now).accumulated_manager_fees == t.accumulated_manager_fees + m,
        totals_after_spec(t, m as int, p as int, now).accumulated_protocol_fees == t.accumulated_protocol_fees + p,
        totals_after_spec(t, m as int, p as int, now).total_fees == t.total_fees + m + p,
{
}

/// Fees grow at least linearly with time: the fees accrued over twice a
/// period are at least twice those accrued over the period.
pub proof fn lemma_accrual_superadditive(settings: FeeSettings, rate: u32, balance: i128, last: u64, d: u64)
    requires
        last + 2 * d <= u64::MAX,
    ensures
        2 * accrued_fees_spec(settings, rate, balance, last, (last + d) as u64).0
            <= accrued_fees_spec(settings, rate, balance, last, (last + 2 * d) as u64).0,
        2 * accrued_fees_spec(settings, rate, balance, last, (last + d) as u64).1
            <= accrued_fees_spec(settings, rate, balance, last, (last + 2 * d) as u64).1,
{
    let y = SECONDS_PER_YEAR as int;
    let di = d as int;
    assert(2 * (di / y) <= (2 * di) / y) by (nonlinear_arith)
        requires y > 0, di >= 0;
    let m = settings.manager_fee_amount as int;
    let r = rate as int;
    assert(2 * (m * (di / y)) <= m * ((2 * di) / y)) by (nonlinear_arith)
        requires m >= 0, 2 * (di / y) <= (2 * di) / y;
    assert(2 * (r * (di / y)) <= r * ((2 * di) / y)) by (nonlinear_arith)
        requires r >= 0, 2 * (di / y) <= (2 * di) / y;
    if d == 0 {
    } else {
        assert(years_between(last, (last + d) as u64) == di / y);
        assert(years_between(last, (last + 2 * d) as u64) == (2 * di) / y);
    }
}

/// The manager fee is proportional to the manager rate: multiplying the rate
/// by `k` multiplies the accrued manager fee by `k` and leaves the protocol
/// fee as it is.
pub proof fn lemma_manager_fee_proportional(settings: FeeSettings, k: u128, rate: u32, balance: i128, last: u64, now: u64)
    requires
        settings.manager_fee_amount * k <= u128::MAX,
    ensures
        accrued_fees_spec(FeeSettings { manager_fee_amount: (settings.manager_fee_amount * k) as u128, ..settings },
            rate, balance, last, now).0 == k * accrued_fees_spec(settings, rate, balance, last, now).0,
        accrued_fees_spec(FeeSettings { manager_fee_amount: (settings.manager_fee_amount * k) as u128, ..settings },
            rate, balance, last, now).1 == accrued_fees_spec(settings, rate, balance, last, now).1,
{
    let m = settings.manager_fee_amount as int;
    let yrs = years_between(last, now);
    let scaled = FeeSettings { manager_fee_amount: (settings.manager_fee_amount * k) as u128, ..settings };
    assert(scaled.manager_fee_amount == m * k);
    assert((m * k) * yrs == k * (m * yrs)) by (nonlinear_arith);
    let a = accrued_fees_spec(settings, rate, balance, last, now).0;
    let b = accrued_fees_spec(scaled, rate, balance, last, now).0;
    if k > 0 {
        assert(m * k > 0 <==> m > 0) by (nonlinear_arith) requires k > 0, m >= 0;
        assert(b == k * a);
    } else {
        assert(m * k == 0) by (nonlinear_arith) requires k == 0;
        assert(b == 0);
        assert(k * a == 0) by (nonlinear_arith) requires k == 0;
    }
}

} // verus!

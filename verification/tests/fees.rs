use normal_index::accrual::{
    calculate_accrued_fees, collect_accrued_fees_if_any, collect_fees_before_action, force_collect_fees,
    get_effective_balance, get_fee_enabled_from_factory, get_minimum_fee_threshold,
    get_protocol_fee_amount_from_factory, get_user_fee_state, initialize_or_update_user_tracking,
    preview_accrued_fees, FeeSettings, FeeTotals, UserFeeState, DEFAULT_MINIMUM_FEE_THRESHOLD,
};

use normal_index::index::Index;

const SECONDS_PER_YEAR: u64 = 31_536_000;

/// The test index: a manager fee of 100 per year, 25k shares minimum, no
/// factory connected (fees enabled, protocol rate zero, default threshold).
fn setup_fee_config() -> (FeeSettings, u32) {
    let settings = FeeSettings::without_factory(100u128, 25_000_000_000u128);
    let protocol_rate = get_protocol_fee_amount_from_factory(false, None, 0);
    (settings, protocol_rate)
}

fn empty_totals() -> FeeTotals {
    FeeTotals { accumulated_manager_fees: 0, accumulated_protocol_fees: 0, total_fees: 0, last_fee_collection: 0 }
}

fn tracked_user(balance: i128, now: u64) -> UserFeeState {
    let mut state = get_user_fee_state(None, now);
    initialize_or_update_user_tracking(&mut state, balance, now);
    state
}

#[test]
fn test_calculate_accrued_fees_basic() {
    let (settings, rate) = setup_fee_config();
    let user_balance = 100_000_000_000i128;
    let start_time = 1000u64;
    let end_time = start_time + SECONDS_PER_YEAR;
    let (manager_fee, protocol_fee) = calculate_accrued_fees(&settings, rate, user_balance, start_time, end_time);
    assert_eq!(manager_fee, 100u128, "Manager fee should be 100 tokens for 1 year");
    assert_eq!(protocol_fee, 0u128, "Protocol fee should be 0 when factory not set");
}

#[test]
fn test_calculate_accrued_fees_no_time_elapsed() {
    let (settings, rate) = setup_fee_config();
    let start_time = 1000u64;
    let end_time = start_time;
    let (manager_fee, protocol_fee) = calculate_accrued_fees(&settings, rate, 100_000_000_000i128, start_time, end_time);
    assert_eq!(manager_fee, 0, "No manager fee should accrue with no time elapsed");
    assert_eq!(protocol_fee, 0, "No protocol fee should accrue with no time elapsed");
}

#[test]
fn test_calculate_accrued_fees_zero_balance() {
    let (settings, rate) = setup_fee_config();
    let start_time = 1000u64;
    let end_time = start_time + SECONDS_PER_YEAR;
    let (manager_fee, protocol_fee) = calculate_accrued_fees(&settings, rate, 0i128, start_time, end_time);
    assert_eq!(manager_fee, 0, "No fees should accrue on zero balance");
    assert_eq!(protocol_fee, 0, "No fees should accrue on zero balance");
}

#[test]
fn test_calculate_accrued_fees_below_minimum_shares() {
    let (settings, rate) = setup_fee_config();
    let minimum_shares = settings.minimum_shares;
    assert_eq!(minimum_shares, 25_000_000_000u128, "Minimum shares should be 25k");
    let start_time = 1000u64;
    let end_time = start_time + SECONDS_PER_YEAR;
    let user_balance = 10_000_000_000i128;
    let (manager_fee, protocol_fee) = calculate_accrued_fees(&settings, rate, user_balance, start_time, end_time);
    assert_eq!(manager_fee, 0, "No fees should accrue below minimum shares");
    assert_eq!(protocol_fee, 0, "No fees should accrue below minimum shares");
}

#[test]
fn test_calculate_accrued_fees_above_minimum_shares() {
    let (settings, rate) = setup_fee_config();
    let user_balance = (settings.minimum_shares + 1) as i128;
    let start_time = 1000u64;
    let end_time = start_time + SECONDS_PER_YEAR;
    let (manager_fee, protocol_fee) = calculate_accrued_fees(&settings, rate, user_balance, start_time, end_time);
    assert!(manager_fee > 0, "Manager fees should accrue above minimum shares");
    assert_eq!(protocol_fee, 0, "Protocol fee should be 0 when factory not set");
}

#[test]
fn test_collect_accrued_fees_if_any_below_threshold() {
    let (settings, rate) = setup_fee_config();
    let mut totals = empty_totals();
    let mut state = tracked_user(100_000_000_000i128, 0);
    // A modified copy that is not written back leaves the stored state alone.
    let mut copy = state;
    copy.accrued_manager_fees = 100u128;
    copy.accrued_protocol_fees = 50u128;
    let (collected_manager, collected_protocol) = collect_accrued_fees_if_any(&mut state, &mut totals, &settings, rate, 0);
    assert_eq!(collected_manager, 0, "Fees below threshold should not be collected");
    assert_eq!(collected_protocol, 0, "Fees below threshold should not be collected");
}

#[test]
fn test_collect_accrued_fees_if_any_above_threshold() {
    let (settings, rate) = setup_fee_config();
    let mut totals = empty_totals();
    let user_balance = 1_000_000_000_000i128;
    let mut state = tracked_user(user_balance, 0);
    let now = SECONDS_PER_YEAR * 2;
    let (collected_manager, collected_protocol) = collect_accrued_fees_if_any(&mut state, &mut totals, &settings, rate, now);
    if collected_manager > 0 || collected_protocol > 0 {
        assert_eq!(totals.accumulated_manager_fees, collected_manager, "Accumulated manager fees should match collected");
        assert_eq!(totals.accumulated_protocol_fees, collected_protocol, "Accumulated protocol fees should match collected");
    }
}

#[test]
fn test_initialize_or_update_user_tracking() {
    let initial_balance = 100_000_000_000i128;
    let current_time = 0u64;
    let mut state = get_user_fee_state(None, current_time);
    initialize_or_update_user_tracking(&mut state, initial_balance, current_time);
    assert_eq!(state.balance, initial_balance, "Balance should be set");
    assert_eq!(state.last_fee_update, current_time, "Timestamp should be updated");
    assert_eq!(state.accrued_manager_fees, 0, "Accrued manager fees should start at 0");
    assert_eq!(state.accrued_protocol_fees, 0, "Accrued protocol fees should start at 0");
    let additional_balance = 50_000_000_000i128;
    initialize_or_update_user_tracking(&mut state, additional_balance, current_time);
    assert_eq!(state.balance, initial_balance + additional_balance, "Balance should be updated");
}

#[test]
fn test_collect_fees_before_action() {
    let (settings, rate) = setup_fee_config();
    let mut totals = empty_totals();
    let user_balance = 100_000_000_000i128;
    let mut state = tracked_user(user_balance, 0);
    assert_eq!(state.balance, user_balance);
    let now = SECONDS_PER_YEAR / 2;
    let balance_change = -10_000_000_000i128;
    let (collected_manager, collected_protocol) =
        collect_fees_before_action(&mut state, &mut totals, &settings, rate, balance_change, now);
    assert!(state.balance <= user_balance, "Balance should be reduced after fee collection and action");
    if collected_manager > 0 || collected_protocol > 0 {
        assert_eq!(totals.accumulated_manager_fees, collected_manager, "Accumulated manager fees should match");
        assert_eq!(totals.accumulated_protocol_fees, collected_protocol, "Accumulated protocol fees should match");
    }
}

#[test]
fn test_preview_accrued_fees() {
    let (settings, rate) = setup_fee_config();
    let totals = empty_totals();
    let state = tracked_user(100_000_000_000i128, 0);
    let initial_accumulated_manager = totals.accumulated_manager_fees;
    let initial_accumulated_protocol = totals.accumulated_protocol_fees;
    let now = SECONDS_PER_YEAR / 2;
    let (preview_manager, preview_protocol) = preview_accrued_fees(&state, &settings, rate, now);
    assert!(preview_manager >= 0, "Preview should show manager fees");
    assert!(preview_protocol >= 0, "Preview should show protocol fees");
    assert_eq!(totals.accumulated_manager_fees, initial_accumulated_manager, "Preview should not collect fees");
    assert_eq!(totals.accumulated_protocol_fees, initial_accumulated_protocol, "Preview should not collect fees");
}

#[test]
fn test_force_collect_fees() {
    let (settings, rate) = setup_fee_config();
    let mut totals = empty_totals();
    let mut state = tracked_user(100_000_000_000i128, 0);
    let now = SECONDS_PER_YEAR / 4;
    let (collected_manager, collected_protocol) = force_collect_fees(&mut state, &mut totals, &settings, rate, now);
    assert!(collected_manager >= 0, "Force collect should return manager fees");
    assert!(collected_protocol >= 0, "Force collect should return protocol fees");
    if collected_manager > 0 || collected_protocol > 0 {
        assert_eq!(totals.accumulated_manager_fees, collected_manager, "Accumulated manager fees should match");
        assert_eq!(totals.accumulated_protocol_fees, collected_protocol, "Accumulated protocol fees should match");
    }
}

#[test]
fn test_get_effective_balance() {
    let (settings, rate) = setup_fee_config();
    let user_balance = 100_000_000_000i128;
    let state = tracked_user(user_balance, 0);
    let effective_balance_before = get_effective_balance(&state, &settings, rate, 0);
    assert_eq!(effective_balance_before, user_balance, "Effective balance should equal balance initially");
    let effective_balance_after = get_effective_balance(&state, &settings, rate, SECONDS_PER_YEAR / 2);
    assert!(effective_balance_after <= user_balance, "Effective balance should account for pending fees");
}

#[test]
fn test_fee_collection_updates_total_fees() {
    let (settings, rate) = setup_fee_config();
    let mut totals = empty_totals();
    let mut state = tracked_user(10_000_000_000_000i128, 0);
    let initial_total_fees = totals.total_fees;
    let now = SECONDS_PER_YEAR * 10;
    let (collected_manager, collected_protocol) = collect_accrued_fees_if_any(&mut state, &mut totals, &settings, rate, now);
    if collected_manager > 0 || collected_protocol > 0 {
        assert_eq!(
            totals.total_fees,
            initial_total_fees + collected_manager + collected_protocol,
            "Total fees should equal sum of manager and protocol fees"
        );
    }
}

#[test]
fn test_fee_calculation_time_proportionality() {
    let (settings, rate) = setup_fee_config();
    let user_balance = 100_000_000_000i128;
    let start_time = 1000u64;
    let one_year = start_time + SECONDS_PER_YEAR;
    let (fees_1yr_manager, fees_1yr_protocol) = calculate_accrued_fees(&settings, rate, user_balance, start_time, one_year);
    let six_months = start_time + (SECONDS_PER_YEAR / 2);
    let (fees_6mo_manager, fees_6mo_protocol) = calculate_accrued_fees(&settings, rate, user_balance, start_time, six_months);
    assert!(fees_6mo_manager * 2 <= fees_1yr_manager + 1, "6 month manager fees should be approximately half of 1 year fees");
    assert!(fees_6mo_protocol * 2 <= fees_1yr_protocol + 1, "6 month protocol fees should be approximately half of 1 year fees");
}

#[test]
fn test_manager_fee_amount_storage() {
    let (mut settings, _) = setup_fee_config();
    assert_eq!(settings.manager_fee_amount, 100u128, "Manager fee amount should be 100");
    settings.manager_fee_amount = 200u128;
    assert_eq!(settings.manager_fee_amount, 200u128, "Manager fee amount should be updated to 200");
}

#[test]
fn test_protocol_fee_recipient_storage() {
    let protocol_recipient = 7u64;
    let mut index = Index::new(1, 2, false, 0, 3, &Vec::new(), 0);
    index.protocol_fee_recipient = Some(protocol_recipient);
    assert_eq!(index.protocol_fee_recipient, Some(protocol_recipient), "Protocol fee recipient should match");
    let new_recipient = 8u64;
    index.protocol_fee_recipient = Some(new_recipient);
    assert_eq!(index.protocol_fee_recipient, Some(new_recipient), "Protocol fee recipient should be updated");
}

#[test]
fn test_accumulated_fees_storage() {
    let mut totals = empty_totals();
    assert_eq!(totals.accumulated_manager_fees, 0, "Initial accumulated manager fees should be 0");
    assert_eq!(totals.accumulated_protocol_fees, 0, "Initial accumulated protocol fees should be 0");
    totals.accumulated_manager_fees = 1_000_000u128;
    totals.accumulated_protocol_fees = 500_000u128;
    assert_eq!(totals.accumulated_manager_fees, 1_000_000u128, "Accumulated manager fees should be updated");
    assert_eq!(totals.accumulated_protocol_fees, 500_000u128, "Accumulated protocol fees should be updated");
}

#[test]
fn test_fee_calculation_with_different_manager_fee_rates() {
    let (mut settings, rate) = setup_fee_config();
    let user_balance = 100_000_000_000i128;
    let start_time = 1000u64;
    let end_time = start_time + SECONDS_PER_YEAR;
    settings.manager_fee_amount = 50u128;
    let (fees_50bps_manager, _) = calculate_accrued_fees(&settings, rate, user_balance, start_time, end_time);
    settings.manager_fee_amount = 200u128;
    let (fees_200bps_manager, _) = calculate_accrued_fees(&settings, rate, user_balance, start_time, end_time);
    assert_eq!(fees_200bps_manager, fees_50bps_manager * 4, "200 bps should be 4x 50 bps");
}

#[test]
fn test_fee_collection_resets_user_accrued_fees() {
    let (settings, rate) = setup_fee_config();
    let mut totals = empty_totals();
    let mut state = tracked_user(10_000_000_000_000i128, 0);
    let now = SECONDS_PER_YEAR * 10;
    let (collected_manager, collected_protocol) = collect_accrued_fees_if_any(&mut state, &mut totals, &settings, rate, now);
    if collected_manager > 0 || collected_protocol > 0 {
        assert_eq!(state.accrued_manager_fees, 0, "User's accrued manager fees should be reset after collection");
        assert_eq!(state.accrued_protocol_fees, 0, "User's accrued protocol fees should be reset after collection");
    }
}

#[test]
fn test_factory_not_set_uses_defaults() {
    let (settings, rate) = setup_fee_config();
    let user_balance = 100_000_000_000i128;
    let start_time = 1000u64;
    let end_time = start_time + SECONDS_PER_YEAR;
    let (manager_fee, protocol_fee) = calculate_accrued_fees(&settings, rate, user_balance, start_time, end_time);
    assert!(manager_fee > 0, "Manager fee should work without factory");
    assert_eq!(protocol_fee, 0, "Protocol fee should be 0 when factory not set");
}

#[test]
fn test_minimum_shares_configuration() {
    let (mut settings, rate) = setup_fee_config();
    assert_eq!(settings.minimum_shares, 25_000_000_000u128, "Default minimum should be 25k");
    let new_minimum = 50_000_000_000u128;
    settings.minimum_shares = new_minimum;
    assert_eq!(settings.minimum_shares, new_minimum, "Minimum shares should be updated");
    let user_balance = 30_000_000_000i128;
    let start_time = 1000u64;
    let end_time = start_time + SECONDS_PER_YEAR;
    let (manager_fee, protocol_fee) = calculate_accrued_fees(&settings, rate, user_balance, start_time, end_time);
    assert_eq!(manager_fee, 0, "No fees should accrue below minimum shares");
    assert_eq!(protocol_fee, 0, "No fees should accrue below minimum shares");
}

// Exact values of the accrual formula and of the factory replies.

#[test]
fn accrual_counts_whole_years_only() {
    let (settings, _) = setup_fee_config();
    let (m, p) = calculate_accrued_fees(&settings, 30, 100_000_000_000i128, 0, SECONDS_PER_YEAR * 3 - 1);
    assert_eq!((m, p), (200, 60));
    let (m, p) = calculate_accrued_fees(&settings, 30, 100_000_000_000i128, 0, SECONDS_PER_YEAR * 3);
    assert_eq!((m, p), (300, 90));
}

#[test]
fn accrual_disabled_by_factory_is_zero() {
    let settings = FeeSettings {
        fee_enabled: get_fee_enabled_from_factory(Some(false)),
        manager_fee_amount: 100,
        minimum_shares: 0,
        minimum_fee_threshold: get_minimum_fee_threshold(Some(5)),
    };
    assert_eq!(calculate_accrued_fees(&settings, 10, 1_000, 0, SECONDS_PER_YEAR * 4), (0, 0));
    assert_eq!(settings.minimum_fee_threshold, 5);
    assert!(get_fee_enabled_from_factory(None));
    assert_eq!(get_minimum_fee_threshold(None), DEFAULT_MINIMUM_FEE_THRESHOLD);
}

#[test]
fn protocol_rate_falls_back_to_flat_amount() {
    assert_eq!(get_protocol_fee_amount_from_factory(true, Some(12), 40), 12);
    assert_eq!(get_protocol_fee_amount_from_factory(true, None, 40), 40);
    assert_eq!(get_protocol_fee_amount_from_factory(false, Some(12), 40), 0);
}

#[test]
fn collection_over_threshold_moves_fees_to_totals() {
    let settings = FeeSettings { fee_enabled: true, manager_fee_amount: 700_000, minimum_shares: 0, minimum_fee_threshold: 1_000_000 };
    let mut totals = empty_totals();
    let mut state = tracked_user(50, 0);
    let now = SECONDS_PER_YEAR * 2;
    let (m, p) = collect_accrued_fees_if_any(&mut state, &mut totals, &settings, 0, now);
    assert_eq!((m, p), (1_400_000, 0));
    assert_eq!(totals.accumulated_manager_fees, 1_400_000);
    assert_eq!(totals.total_fees, 1_400_000);
    assert_eq!(totals.last_fee_collection, now);
    assert_eq!(state.accrued_manager_fees, 0);
    assert_eq!(state.last_fee_update, now);
    // Collecting again at the same time finds nothing new.
    let again = collect_accrued_fees_if_any(&mut state, &mut totals, &settings, 0, now);
    assert_eq!(again, (0, 0));
    assert_eq!(totals.accumulated_manager_fees, 1_400_000);
}

#[test]
fn force_collection_ignores_threshold_and_reduces_balance() {
    let settings = FeeSettings { fee_enabled: true, manager_fee_amount: 7, minimum_shares: 0, minimum_fee_threshold: 1_000_000 };
    let mut totals = empty_totals();
    let mut state = tracked_user(1_000, 0);
    let preview = preview_accrued_fees(&state, &settings, 3, SECONDS_PER_YEAR);
    assert_eq!(preview, (7, 3));
    let forced = force_collect_fees(&mut state, &mut totals, &settings, 3, SECONDS_PER_YEAR);
    assert_eq!(forced, preview);
    assert_eq!(state.balance, 990);
    assert_eq!(totals.total_fees, 10);
}

#[test]
fn action_below_threshold_keeps_pending_fees() {
    let settings = FeeSettings { fee_enabled: true, manager_fee_amount: 7, minimum_shares: 0, minimum_fee_threshold: 1_000_000 };
    let mut totals = empty_totals();
    let mut state = tracked_user(1_000, 0);
    let r = collect_fees_before_action(&mut state, &mut totals, &settings, 3, -400, SECONDS_PER_YEAR);
    assert_eq!(r, (0, 0));
    assert_eq!(state.balance, 600);
    assert_eq!(state.accrued_manager_fees, 7);
    assert_eq!(state.accrued_protocol_fees, 3);
    assert_eq!(get_effective_balance(&state, &settings, 3, SECONDS_PER_YEAR), 590);
}

#[test]
fn stored_state_is_returned_unchanged() {
    let stored = UserFeeState { balance: 5, last_fee_update: 9, accrued_manager_fees: 1, accrued_protocol_fees: 2 };
    assert_eq!(get_user_fee_state(Some(stored), 100), stored);
    let fresh = get_user_fee_state(None, 100);
    assert_eq!(fresh, UserFeeState { balance: 0, last_fee_update: 100, accrued_manager_fees: 0, accrued_protocol_fees: 0 });
}

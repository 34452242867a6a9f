use normal_index::components::{Component, ComponentAction, ComponentUpdate, TradeParams};
use normal_index::errors::IndexFundError;
use normal_index::fund::{CallerRoles, FundAuthorities, IndexFund};

const THIRTY_DAYS: u64 = 30 * 24 * 60 * 60;
const QUOTE: u64 = 1;
const CONTRACT: u64 = 99;
const TOKEN_ASSET: u64 = 7;
const NORMAL_ADAPTER: u64 = 3;

fn admin() -> CallerRoles {
    CallerRoles { is_admin: true, is_whitelisted: false, is_blacklisted: false, is_rebalance_authority: false }
}

fn authority() -> CallerRoles {
    CallerRoles { is_admin: false, is_whitelisted: false, is_blacklisted: false, is_rebalance_authority: true }
}

fn regular_user() -> CallerRoles {
    CallerRoles { is_admin: false, is_whitelisted: false, is_blacklisted: false, is_rebalance_authority: false }
}

const ADMIN: u64 = 2;
const FACTORY: u64 = 90;
const REGISTRY: u64 = 91;

fn authorities() -> FundAuthorities {
    FundAuthorities {
        admin: ADMIN, emergency_admin: ADMIN, fee_admin: ADMIN, rewards_admin: ADMIN, operations_admin: ADMIN,
        rebalance_authorities: Vec::new(),
    }
}

/// A private fund with a 30-day rebalance threshold and no components.
fn create_test_index() -> IndexFund {
    let mut fund = IndexFund::new(FACTORY, REGISTRY, authorities(), QUOTE, false, 100, &Vec::new(), TOKEN_ASSET).unwrap();
    fund.rebalance_threshold = THIRTY_DAYS;
    fund
}

fn component(weight: u128, oracle: u64) -> Component {
    Component { asset: TOKEN_ASSET, weight, oracle, adapter: NORMAL_ADAPTER }
}

/// Registers components; each gets the balance its weight stands for at
/// the given NAV.
fn setup_components(fund: &mut IndexFund, tokens_with_weights: &[(u64, u128)], nav: u128) {
    for (i, (token, weight)) in tokens_with_weights.iter().enumerate() {
        fund.components.set_component(*token, component(*weight, 500 + i as u64));
        fund.components.set_component_balance(*token, (nav * *weight) / 10_000);
    }
}

/// Registers components without touching their balances.
fn setup_components_without_balances(fund: &mut IndexFund, tokens_with_weights: &[(u64, u128)]) {
    for (i, (token, weight)) in tokens_with_weights.iter().enumerate() {
        fund.components.set_component(*token, component(*weight, 500 + i as u64));
    }
}

/// Puts the last rebalance far enough back; returns the new time.
fn allow_immediate_rebalance(fund: &mut IndexFund, now: u64) -> u64 {
    if now > THIRTY_DAYS {
        fund.last_rebalance_ts = now - THIRTY_DAYS - 1;
    } else {
        fund.last_rebalance_ts = 0;
    }
    now + THIRTY_DAYS + 1
}

#[test]
fn test_rebalance_updates_timestamps() {
    let mut fund = create_test_index();
    setup_components(&mut fund, &[(10, 10000)], 0);
    let now = allow_immediate_rebalance(&mut fund, 0);
    let time_before = now;
    fund.rebalance(admin(), now, None, 0, CONTRACT).unwrap();
    let last_rebalance = fund.last_rebalance_ts;
    let last_updated = fund.last_updated_ts;
    assert!(last_rebalance >= time_before, "last_rebalance_ts should be updated");
    assert!(last_updated >= time_before, "last_updated_ts should be updated");
    assert_eq!(last_rebalance, last_updated, "Both timestamps should be equal after rebalance");
}

#[test]
fn test_rebalance_with_target_nav() {
    let mut fund = create_test_index();
    setup_components(&mut fund, &[(10, 10000)], 0);
    fund.components.set_component_balance(10, 50_000);
    let now = allow_immediate_rebalance(&mut fund, 0);
    let result = fund.rebalance(admin(), now, Some(200_000), 100_000, CONTRACT);
    assert!(result.is_ok());
}

#[test]
fn test_rebalance_without_target_nav_uses_current() {
    let mut fund = create_test_index();
    setup_components(&mut fund, &[(10, 10000)], 0);
    fund.components.set_component_balance(10, 100_000);
    let now = allow_immediate_rebalance(&mut fund, 0);
    let result = fund.rebalance(admin(), now, None, 100_000, CONTRACT);
    assert!(result.is_ok());
}

#[test]
fn test_rebalance_after_threshold_succeeds() {
    let mut fund = create_test_index();
    setup_components(&mut fund, &[(10, 10000)], 0);
    let now = allow_immediate_rebalance(&mut fund, 0);
    fund.rebalance(admin(), now, None, 0, CONTRACT).unwrap();
    let threshold = fund.rebalance_threshold;
    let later = now + threshold;
    fund.rebalance(admin(), later, None, 0, CONTRACT).unwrap();
}

#[test]
fn test_get_rebalance_status_timing() {
    let mut fund = create_test_index();
    setup_components(&mut fund, &[(10, 10000)], 0);
    let now = allow_immediate_rebalance(&mut fund, 0);
    fund.rebalance(admin(), now, None, 0, CONTRACT).unwrap();
    let status_before = fund.get_rebalance_status(now);
    assert!(!status_before.can_rebalance, "Should not be able to rebalance yet");
    assert!(status_before.time_until_next_rebalance > 0, "Should have time remaining");
    let threshold = fund.rebalance_threshold;
    let status_after = fund.get_rebalance_status(now + threshold);
    assert!(status_after.can_rebalance, "Should be able to rebalance now");
    assert_eq!(status_after.time_until_next_rebalance, 0, "No time should remain");
}

#[test]
fn rebalance_status_lists_authorities_of_private_fund_only() {
    let mut fund = create_test_index();
    fund.set_rebalance_authority(41, true);
    fund.set_rebalance_authority(41, true);
    assert_eq!(fund.get_rebalance_status(0).rebalance_authorities, vec![41]);
    fund.is_public = true;
    assert!(fund.get_rebalance_status(0).rebalance_authorities.is_empty());
    assert_eq!(fund.factory, FACTORY);
    assert_eq!(fund.adapter_registry, REGISTRY);
    assert!(fund.caller_roles(ADMIN, false, false).is_admin);
    assert!(!fund.caller_roles(41, false, false).is_admin);
}

#[test]
fn test_custom_rebalance_threshold() {
    let mut fund = create_test_index();
    let custom_threshold = 7 * 24 * 60 * 60;
    fund.rebalance_threshold = custom_threshold;
    assert_eq!(fund.rebalance_threshold, custom_threshold);
    setup_components(&mut fund, &[(10, 10000)], 0);
    let now = allow_immediate_rebalance(&mut fund, 0);
    fund.rebalance(admin(), now, None, 0, CONTRACT).unwrap();
    let status = fund.get_rebalance_status(now + custom_threshold - 1);
    assert!(!status.can_rebalance, "Should not be able to rebalance before custom threshold");
}

#[test]
fn test_private_index_admin_can_rebalance() {
    let mut fund = create_test_index();
    setup_components(&mut fund, &[(10, 10000)], 0);
    let now = allow_immediate_rebalance(&mut fund, 0);
    assert!(fund.rebalance(admin(), now, None, 0, CONTRACT).is_ok());
}

#[test]
fn test_private_index_rebalance_authority() {
    let mut fund = create_test_index();
    let has_authority = authority().is_rebalance_authority;
    assert!(has_authority);
    setup_components(&mut fund, &[(10, 10000)], 0);
    let now = allow_immediate_rebalance(&mut fund, 0);
    assert!(fund.rebalance(authority(), now, None, 0, CONTRACT).is_ok());
}

#[test]
fn test_set_rebalance_authority() {
    let mut fund = create_test_index();
    let authority1 = 41u64;
    let authority2 = 42u64;
    fund.set_rebalance_authority(authority1, true);
    let authorities = fund.get_rebalance_authorities();
    assert_eq!(authorities.len(), 1);
    fund.set_rebalance_authority(authority2, true);
    let authorities = fund.get_rebalance_authorities();
    assert_eq!(authorities.len(), 2);
    fund.set_rebalance_authority(authority1, false);
    let authorities = fund.get_rebalance_authorities();
    assert_eq!(authorities.len(), 1);
    let has_authority1 = fund.caller_roles(authority1, false, false).is_rebalance_authority;
    assert!(!has_authority1);
    let has_authority2 = fund.caller_roles(authority2, false, false).is_rebalance_authority;
    assert!(has_authority2);
}

#[test]
fn test_generate_rebalance_swaps_buy() {
    let mut fund = create_test_index();
    setup_components(&mut fund, &[(10, 5000)], 0);
    fund.components.set_component_balance(10, 30_000);
    let now = allow_immediate_rebalance(&mut fund, 0);
    let swaps = fund.rebalance(admin(), now, None, 100_000, CONTRACT).unwrap();
    assert_eq!(swaps.len(), 1);
    assert_eq!(swaps[0].token_in, QUOTE);
    assert_eq!(swaps[0].token_out, 10);
    assert_eq!(swaps[0].amount_in, 20_000);
}

#[test]
fn test_generate_rebalance_swaps_sell() {
    let mut fund = create_test_index();
    setup_components(&mut fund, &[(10, 3000)], 0);
    fund.components.set_component_balance(10, 50_000);
    let now = allow_immediate_rebalance(&mut fund, 0);
    let swaps = fund.rebalance(admin(), now, None, 100_000, CONTRACT).unwrap();
    assert_eq!(swaps.len(), 1);
    assert_eq!(swaps[0].token_in, 10);
    assert_eq!(swaps[0].token_out, QUOTE);
    assert_eq!(swaps[0].amount_in, 20_000);
}

#[test]
fn test_generate_rebalance_swaps_no_change() {
    let mut fund = create_test_index();
    setup_components(&mut fund, &[(10, 5000)], 0);
    fund.components.set_component_balance(10, 50_000);
    let now = allow_immediate_rebalance(&mut fund, 0);
    let swaps = fund.rebalance(admin(), now, None, 100_000, CONTRACT).unwrap();
    assert_eq!(swaps.len(), 0);
}

#[test]
fn test_generate_rebalance_swaps_multiple_components() {
    let mut fund = create_test_index();
    setup_components(&mut fund, &[(10, 4000), (11, 3500), (12, 2500)], 0);
    fund.components.set_component_balance(10, 30_000);
    fund.components.set_component_balance(11, 35_000);
    fund.components.set_component_balance(12, 35_000);
    let now = allow_immediate_rebalance(&mut fund, 0);
    let swaps = fund.rebalance(admin(), now, None, 100_000, CONTRACT).unwrap();
    assert_eq!(
        swaps,
        vec![
            TradeParams { token_in: QUOTE, token_out: 10, amount_in: 10_000, amount_out_min: 9_500, to: CONTRACT, asset: TOKEN_ASSET },
            TradeParams { token_in: 12, token_out: QUOTE, amount_in: 10_000, amount_out_min: 9_500, to: CONTRACT, asset: TOKEN_ASSET },
        ]
    );
}

#[test]
fn test_can_address_rebalance_admin() {
    let mut fund = create_test_index();
    setup_components(&mut fund, &[(10, 10000)], 0);
    let now = allow_immediate_rebalance(&mut fund, 0);
    let can_rebalance = fund.can_address_rebalance(admin(), now);
    assert!(can_rebalance, "Admin should be able to rebalance");
}

#[test]
fn test_can_address_rebalance_authority() {
    let mut fund = create_test_index();
    setup_components(&mut fund, &[(10, 10000)], 0);
    let now = allow_immediate_rebalance(&mut fund, 0);
    let can_rebalance = fund.can_address_rebalance(authority(), now);
    assert!(can_rebalance, "Authority should be able to rebalance");
}

#[test]
fn test_can_address_rebalance_regular_user() {
    let mut fund = create_test_index();
    setup_components(&mut fund, &[(10, 10000)], 0);
    let can_rebalance = fund.can_address_rebalance(regular_user(), 0);
    assert!(!can_rebalance, "Regular user should not be able to rebalance");
}

#[test]
fn test_get_component_allocation() {
    let mut fund = create_test_index();
    setup_components_without_balances(&mut fund, &[(10, 6000), (11, 4000)]);
    fund.components.set_component_balance(10, 50_000);
    fund.components.set_component_balance(11, 50_000);
    let allocations = fund.components.get_component_allocation(100_000);
    assert_eq!(allocations.len(), 2);
    let alloc1 = allocations.iter().find(|a| a.token == 10).unwrap();
    assert_eq!(alloc1.current_balance, 50_000);
    assert_eq!(alloc1.target_balance, 60_000);
    let alloc2 = allocations.iter().find(|a| a.token == 11).unwrap();
    assert_eq!(alloc2.current_balance, 50_000);
    assert_eq!(alloc2.target_balance, 40_000);
}

#[test]
fn test_full_refactor_rebalance_flow() {
    let mut fund = create_test_index();
    setup_components_without_balances(&mut fund, &[(10, 5000), (11, 5000)]);
    fund.components.set_component_balance(10, 50_000);
    fund.components.set_component_balance(11, 50_000);
    fund.last_rebalance_ts = 100;
    fund.last_updated_ts = 100;
    let now = 105;
    let updates = vec![
        ComponentUpdate { token: 10, action: ComponentAction::UpdateWeight, new_weight: Some(4000), new_oracle: None, new_adapter: None },
        ComponentUpdate { token: 11, action: ComponentAction::UpdateWeight, new_weight: Some(3000), new_oracle: None, new_adapter: None },
        ComponentUpdate { token: 12, action: ComponentAction::Add, new_weight: Some(3000), new_oracle: Some(502), new_adapter: Some(NORMAL_ADAPTER) },
    ];
    fund.refactor(admin(), &updates, TOKEN_ASSET, now).unwrap();
    let last_updated = fund.last_updated_ts;
    let last_rebalance = fund.last_rebalance_ts;
    assert!(last_updated > last_rebalance);
    fund.components.set_component_balance(10, 60_000);
    fund.components.set_component_balance(11, 20_000);
    fund.components.set_component_balance(12, 20_000);
    let now = allow_immediate_rebalance(&mut fund, now);
    fund.rebalance(admin(), now, None, 100_000, CONTRACT).unwrap();
    assert_eq!(fund.last_updated_ts, fund.last_rebalance_ts);
    let comp1 = fund.components.get_component(10).unwrap();
    let comp2 = fund.components.get_component(11).unwrap();
    let comp3 = fund.components.get_component(12).unwrap();
    assert_eq!(comp1.weight, 4000);
    assert_eq!(comp2.weight, 3000);
    assert_eq!(comp3.weight, 3000);
    assert_eq!(comp1.weight + comp2.weight + comp3.weight, 10000);
}

#[test]
fn test_rebalance_after_initial_setup() {
    let mut fund = create_test_index();
    setup_components(&mut fund, &[(10, 10000)], 0);
    let last_rebalance_before = fund.last_rebalance_ts;
    assert_eq!(last_rebalance_before, 0);
    let now = allow_immediate_rebalance(&mut fund, 0);
    fund.rebalance(admin(), now, None, 0, CONTRACT).unwrap();
    let last_rebalance_after = fund.last_rebalance_ts;
    assert!(last_rebalance_after > 0);
}

#[test]
fn test_rebalance_executed_event() {
    let mut fund = create_test_index();
    setup_components(&mut fund, &[(10, 10000)], 0);
    let now = allow_immediate_rebalance(&mut fund, 0);
    assert!(fund.rebalance(admin(), now, None, 0, CONTRACT).is_ok());
}

#[test]
fn test_rebalance_completed_detailed_event() {
    let mut fund = create_test_index();
    setup_components(&mut fund, &[(10, 10000)], 0);
    fund.components.set_component_balance(10, 50_000);
    let now = allow_immediate_rebalance(&mut fund, 0);
    assert!(fund.rebalance(admin(), now, None, 100_000, CONTRACT).is_ok());
}

// Refusals of a rebalance, each with the error the contract raises.

#[test]
fn test_rebalance_too_soon_fails() {
    let mut fund = create_test_index();
    setup_components(&mut fund, &[(10, 10000)], 0);
    let now = allow_immediate_rebalance(&mut fund, 0);
    fund.rebalance(admin(), now, None, 0, CONTRACT).unwrap();
    let threshold = fund.rebalance_threshold;
    let r = fund.rebalance(admin(), now + threshold - 1, None, 0, CONTRACT);
    assert_eq!(r.unwrap_err(), IndexFundError::RebalanceTooSoon);
    assert_eq!(IndexFundError::RebalanceTooSoon.code(), 37);
}

#[test]
fn test_public_index_rebalance_requires_admin() {
    let mut fund = create_test_index();
    fund.is_public = true;
    setup_components(&mut fund, &[(10, 10000)], 0);
    let now = allow_immediate_rebalance(&mut fund, 0);
    let r = fund.rebalance(regular_user(), now, None, 0, CONTRACT);
    assert_eq!(r.unwrap_err(), IndexFundError::PublicRebalanceRequiresProposal);
    assert_eq!(IndexFundError::PublicRebalanceRequiresProposal.code(), 39);
}

#[test]
fn test_unauthorized_cannot_rebalance_private_index() {
    let mut fund = create_test_index();
    setup_components(&mut fund, &[(10, 10000)], 0);
    let now = allow_immediate_rebalance(&mut fund, 0);
    let r = fund.rebalance(regular_user(), now, None, 0, CONTRACT);
    assert_eq!(r.unwrap_err(), IndexFundError::NotWhitelisted);
    assert_eq!(IndexFundError::NotWhitelisted.code(), 43);
    let whitelisted = CallerRoles { is_whitelisted: true, ..regular_user() };
    let r = fund.rebalance(whitelisted, now, None, 0, CONTRACT);
    assert_eq!(r.unwrap_err(), IndexFundError::UnauthorizedRebalance);
    let blacklisted = CallerRoles { is_blacklisted: true, ..admin() };
    let r = fund.rebalance(blacklisted, now, None, 0, CONTRACT);
    assert_eq!(r.unwrap_err(), IndexFundError::Blacklisted);
    assert_eq!(fund.last_rebalance_ts, 0);
}

#[test]
fn fund_metrics() {
    let fund = create_test_index();
    let m = fund.get_index_metrics(4, 500);
    assert_eq!((m.total_shares, m.current_nav, m.share_price), (4, 500, 125));
    assert_eq!(fund.get_index_metrics(0, 500).share_price, 100);
}

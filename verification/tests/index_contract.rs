use normal_index::accrual::{FeeSettings, UserFeeState};
use normal_index::errors::IndexError;
use normal_index::index::{
    ComponentAction, DexProvider, Index, IndexCaller, ComponentUpdate, RebalanceParams, SwapDirection, SwapParams,
    VolumeTracker,
};
use normal_index::privacy::{
    calculate_aggregate_metrics, calculate_component_values_for_viewer, calculate_total_portfolio_value,
    get_actual_asset_allocation, get_components_for_viewer_impl, get_nav_for_viewer_impl, get_portfolio_summary_for_viewer_impl,
    update_private_component_commitments, ComponentView, HeldAsset, NavResponse,
    add_authorized_viewer_impl, calculate_diversification_score, calculate_risk_score, decrypt_for_viewer_impl,
    encrypt_for_viewer_impl, execute_private_rebalancing, initialize_privacy_config, remove_authorized_viewer_impl,
    verify_rebalancing_constraints, ComponentPrivacyMode, ViewerAccessLevel,
};

const CONTRACT: u64 = 99;
const SHARE: u64 = 98;
const ASSET: u64 = 5;

fn admin() -> IndexCaller {
    IndexCaller { address: 1, is_admin: true, is_whitelisted: false, is_blacklisted: false }
}

fn user(address: u64) -> IndexCaller {
    IndexCaller { address, is_admin: false, is_whitelisted: false, is_blacklisted: false }
}

fn add(token: u64, w: u128) -> ComponentUpdate {
    ComponentUpdate { token, new_weight: w, action: ComponentAction::Add }
}

fn update(token: u64, w: u128) -> ComponentUpdate {
    ComponentUpdate { token, new_weight: w, action: ComponentAction::UpdateWeight }
}

fn remove(token: u64) -> ComponentUpdate {
    ComponentUpdate { token, new_weight: 0, action: ComponentAction::Remove }
}

fn private_index() -> Index {
    Index::new(CONTRACT, SHARE, false, 100, 1, &vec![50, 51, 50], 0)
}

fn rebalance(index: &mut Index, caller: IndexCaller, updates: Vec<ComponentUpdate>, target_nav: Option<i128>, now: u64)
    -> Result<Vec<SwapParams>, IndexError> {
    let params = RebalanceParams { target_nav, component_updates: updates };
    index.rebalance(caller, &params, ASSET, now)
}

#[test]
fn defaults_of_enums() {
    assert_eq!(DexProvider::default_provider(), DexProvider::Normal);
    assert_eq!(SwapDirection::default_direction(), SwapDirection::Buy);
}

#[test]
fn new_index_registers_distinct_authorities_of_private_index() {
    let index = private_index();
    assert_eq!(index.get_rebalance_authorities(), vec![50, 51]);
    assert_eq!(index.manager, Some(1));
    let public = Index::new(CONTRACT, SHARE, true, 100, 1, &vec![50], 0);
    assert!(public.get_rebalance_authorities().is_empty());
}

#[test]
fn mint_is_always_refused() {
    let mut index = private_index();
    assert_eq!(index.mint(admin(), 100, 0, 0), Err(IndexError::PathIsEmpty));
    assert_eq!(index.mint(user(7), 100, 0, 0), Err(IndexError::NotWhitelisted));
    assert_eq!(index.mint(IndexCaller { is_blacklisted: true, ..admin() }, 100, 0, 0), Err(IndexError::Blacklisted));
    assert_eq!(index.mint(admin(), 100, 5, 0), Err(IndexError::InvalidSharesDetected));
    index.is_killed_mint = true;
    assert_eq!(index.mint(admin(), 100, 0, 0), Err(IndexError::IndexMintKilled));
}

#[test]
fn redeem_checks_then_collects() {
    let mut index = private_index();
    let settings = FeeSettings { fee_enabled: true, manager_fee_amount: 2_000_000, minimum_shares: 0, minimum_fee_threshold: 1_000_000 };
    let mut holder = UserFeeState { balance: 1_000, last_fee_update: 0, accrued_manager_fees: 0, accrued_protocol_fees: 0 };
    let now = 31_536_000;
    assert_eq!(index.redeem(user(7), 100, &mut holder, &settings, 0, now), Err(IndexError::NotWhitelisted));
    assert_eq!(holder.balance, 1_000);
    let fees = index.redeem(admin(), 100, &mut holder, &settings, 0, now).unwrap();
    assert_eq!(fees, (2_000_000, 0));
    assert_eq!(index.fee_totals.accumulated_manager_fees, 2_000_000);
    assert_eq!(holder.balance, 0);
    index.is_killed_redeem = true;
    assert_eq!(index.redeem(admin(), 1, &mut holder, &settings, 0, now), Err(IndexError::IndexRedeemKilled));
}

#[test]
fn rebalance_applies_updates_with_weight_rule() {
    let mut index = private_index();
    let now = 2_592_000;
    rebalance(&mut index, admin(), vec![add(10, 6000), add(11, 4000)], None, now).unwrap();
    assert_eq!(index.get_all_components().len(), 2);
    assert_eq!(index.last_rebalance_ts, now);
    assert_eq!(index.last_updated_ts, now);
    // A weight total other than 10_000 is refused and nothing changes.
    let later = now * 2;
    let r = rebalance(&mut index, admin(), vec![update(10, 5000), update(11, 4000)], None, later);
    assert_eq!(r, Err(IndexError::InvalidWeightSum));
    assert_eq!(index.get_component_safe(10).unwrap().weight, 6000);
    assert_eq!(index.last_rebalance_ts, now);
    // Removing a missing component is refused.
    let r = rebalance(&mut index, admin(), vec![remove(12)], None, later);
    assert_eq!(r, Err(IndexError::ComponentNotFound));
    // Batch: add, remove, re-weight.
    rebalance(&mut index, admin(), vec![add(12, 2000), remove(11), update(10, 8000)], None, later).unwrap();
    let comps = index.get_all_components();
    assert_eq!(comps.len(), 2);
    assert_eq!(index.get_component_safe(10).unwrap().weight, 8000);
    assert_eq!(index.get_component_safe(12).unwrap().weight, 2000);
    assert_eq!(index.get_component_safe(11), None);
    // Removals alone need no weight total.
    let last = later * 2;
    rebalance(&mut index, admin(), vec![remove(12)], None, last).unwrap();
    assert_eq!(index.get_all_components().len(), 1);
}

#[test]
fn rebalance_permissions_and_cooldown() {
    let mut index = private_index();
    let now = 2_592_000;
    assert_eq!(rebalance(&mut index, admin(), vec![], None, now - 1), Err(IndexError::RebalanceTooSoon));
    let whitelisted = IndexCaller { is_whitelisted: true, ..user(7) };
    assert_eq!(rebalance(&mut index, whitelisted, vec![], None, now), Err(IndexError::UnauthorizedRebalance));
    let authority = IndexCaller { is_whitelisted: true, ..user(50) };
    assert!(rebalance(&mut index, authority, vec![], None, now).is_ok());
    // The cooldown starts again.
    assert_eq!(rebalance(&mut index, admin(), vec![], None, now + 1), Err(IndexError::RebalanceTooSoon));
    assert!(!index.can_rebalance(now + 2_592_000 - 1));
    assert!(index.can_rebalance(now + 2_592_000));
    let mut public = Index::new(CONTRACT, SHARE, true, 100, 1, &vec![], 0);
    assert_eq!(rebalance(&mut public, user(7), vec![], None, now), Err(IndexError::PublicRebalanceRequiresProposal));
    public.is_killed_rebalance = true;
    assert_eq!(rebalance(&mut public, admin(), vec![], None, now), Err(IndexError::IndexRebalanceKilled));
}

#[test]
fn rebalance_swaps_towards_target() {
    let mut index = private_index();
    let now = 2_592_000;
    rebalance(&mut index, admin(), vec![add(10, 6000), add(11, 4000)], None, now).unwrap();
    assert!(index.set_component_balance(10, 50_000));
    assert!(index.set_component_balance(11, 50_000));
    assert!(!index.set_component_balance(12, 1));
    let swaps = rebalance(&mut index, admin(), vec![], Some(100_000), now * 2).unwrap();
    assert_eq!(
        swaps,
        vec![
            SwapParams { token_in: SHARE, token_out: 10, amount_in: 10_000, amount_out_min: 9_500, to: CONTRACT },
            SwapParams { token_in: 11, token_out: SHARE, amount_in: 10_000, amount_out_min: 9_500, to: CONTRACT },
        ]
    );
    // Without a target the base NAV (zero here) is used: everything is sold.
    let swaps = index.generate_rebalance_swaps(None);
    assert_eq!(swaps.len(), 2);
    assert_eq!(swaps[0].token_out, SHARE);
}

#[test]
fn deposit_swap_params() {
    let mut index = private_index();
    rebalance(&mut index, admin(), vec![add(10, 6000), add(11, 4000)], None, 2_592_000).unwrap();
    assert_eq!(index.generate_swap_params(3, 0), Err(IndexError::PathIsEmpty));
    let swaps = index.generate_swap_params(10, 1_000).unwrap();
    assert_eq!(swaps, vec![SwapParams { token_in: 10, token_out: 11, amount_in: 400, amount_out_min: 380, to: CONTRACT }]);
    // A buy whose minimum output rounds to zero is refused.
    assert_eq!(index.generate_swap_params(3, 2), Err(IndexError::PathIsEmpty));
}

#[test]
fn valuation_by_weight_price() {
    let mut index = private_index();
    rebalance(&mut index, admin(), vec![add(10, 6000), add(11, 400), add(12, 3600)], None, 2_592_000).unwrap();
    assert_eq!(index.get_token_price_in_base_currency(10), 600_000);
    assert_eq!(index.get_token_price_in_base_currency(11), 100_000);
    assert_eq!(index.get_token_price_in_base_currency(13), 1_000_000);
    assert_eq!(index.get_total_index_value(), 0);
    index.set_component_balance(10, 10);
    index.set_component_balance(11, 3);
    assert_eq!(index.get_total_index_value(), 6_300_000);
    assert_eq!(index.get_current_nav(), 6_300_000);
    assert_eq!(index.get_share_price(0), index.initial_price);
    assert_eq!(index.get_share_price(1_000), 6_300);
    let metrics = index.get_index_metrics(1_000);
    assert_eq!(metrics.current_nav, 6_300_000);
    assert_eq!(metrics.share_price, 6_300);
    let alloc = index.get_component_allocation();
    assert_eq!(alloc.len(), 3);
    assert_eq!(alloc[0].target_balance, 3_780_000);
    assert_eq!(alloc[0].percentage_of_nav, 0);
}

#[test]
fn nav_and_price_queries() {
    let mut index = private_index();
    index.base_nav = 500;
    index.initial_price = 7;
    assert_eq!(index.get_nav(0, 123), 500);
    assert_eq!(index.get_nav(10, 123), 123);
    assert_eq!(index.get_price(0, 123), 7);
    assert_eq!(index.get_price(10, 123), 12);
}

#[test]
fn statuses() {
    let mut index = private_index();
    let status = index.get_index_status(100);
    assert!(!status.can_rebalance);
    let rs = index.get_rebalance_status(100);
    assert_eq!(rs.time_until_next_rebalance, 2_592_000 - 100);
    assert_eq!(rs.authorized_rebalancers, vec![50, 51]);
    assert!(index.can_address_rebalance(user(51), 2_592_000));
    assert!(!index.can_address_rebalance(user(52), 2_592_000));
    index.set_rebalance_authority(51, false);
    assert!(!index.can_address_rebalance(user(51), 2_592_000));
    index.is_killed_rebalance = true;
    assert!(!index.can_address_rebalance(admin(), 2_592_000));
}

#[test]
fn fee_distribution() {
    let mut index = private_index();
    assert_eq!(index.distribute_manager_fees(), Ok(0));
    index.fee_totals.accumulated_manager_fees = 40;
    index.fee_totals.accumulated_protocol_fees = 30;
    assert_eq!(index.distribute_protocol_fees(), Err(IndexError::ProtocolRecipientNotSet));
    assert_eq!(index.fee_totals.accumulated_protocol_fees, 30);
    assert_eq!(index.distribute_manager_fees(), Ok(40));
    assert_eq!(index.distribute_manager_fees(), Ok(0));
    index.manager = None;
    index.fee_totals.accumulated_manager_fees = 5;
    assert_eq!(index.distribute_manager_fees(), Err(IndexError::ManagerNotSet));
    index.protocol_fee_recipient = Some(4);
    assert_eq!(index.distribute_protocol_fees(), Ok(30));
    assert_eq!(index.fee_totals.accumulated_protocol_fees, 0);
}

#[test]
fn transfer_shares_tracks_both_sides() {
    let mut index = private_index();
    let settings = FeeSettings { fee_enabled: true, manager_fee_amount: 0, minimum_shares: 0, minimum_fee_threshold: 1_000_000 };
    let mut from = UserFeeState { balance: 1_000, last_fee_update: 0, accrued_manager_fees: 0, accrued_protocol_fees: 0 };
    let mut to = UserFeeState { balance: 10, last_fee_update: 0, accrued_manager_fees: 0, accrued_protocol_fees: 0 };
    let fees = index.transfer_shares(&mut from, &mut to, &settings, 0, 0, 100, 5);
    assert_eq!(fees, ((0, 0), (0, 0)));
    // The change is applied with the collection and again in the tracking.
    assert_eq!(from.balance, 800);
    assert_eq!(to.balance, 210);
    assert_eq!(from.last_fee_update, 5);
}

#[test]
fn volume_tracker() {
    assert_eq!(VolumeTracker::record_mint_volume(Some(3), 4, 5, 100, CONTRACT), None);
    let rec = VolumeTracker::record_redeem_volume(Some(3), 4, 250, CONTRACT).unwrap();
    assert_eq!((rec.factory, rec.user, rec.usd_amount, rec.index), (3, 4, 250, CONTRACT));
    assert_eq!(VolumeTracker::record_redeem_volume(None, 4, 250, CONTRACT), None);
    assert_eq!(VolumeTracker::calculate_redeem_usd_value(30, 1_000_000), 3);
    assert_eq!(VolumeTracker::calculate_redeem_usd_value(u128::MAX, 2), u128::MAX / 10_000_000);
}

// ---- privacy ----

#[test]
fn viewer_lists() {
    let mut config = initialize_privacy_config(1, vec![5, 6], vec![7]);
    assert_eq!(config.emergency_access, vec![1]);
    add_authorized_viewer_impl(&mut config, 7, ViewerAccessLevel::Authorized);
    assert_eq!(config.authorized_viewers, vec![5, 6, 7]);
    assert!(config.compliance_authorities.is_empty());
    add_authorized_viewer_impl(&mut config, 5, ViewerAccessLevel::Emergency);
    assert_eq!(config.authorized_viewers, vec![6, 7]);
    assert_eq!(config.emergency_access, vec![1, 5]);
    remove_authorized_viewer_impl(&mut config, 1);
    assert_eq!(config.emergency_access, vec![5]);
    // The last emergency viewer stays.
    remove_authorized_viewer_impl(&mut config, 5);
    assert_eq!(config.emergency_access, vec![5]);
    add_authorized_viewer_impl(&mut config, 6, ViewerAccessLevel::Investor);
    assert_eq!(config.authorized_viewers, vec![7]);
}

#[test]
fn cipher_round_trip_for_listed_viewers() {
    let config = initialize_privacy_config(1, vec![5], vec![]);
    let key = vec![0x0f, 0xf0, 0x55];
    let data = vec![1, 2, 3, 4, 250];
    let enc = encrypt_for_viewer_impl(&data, &key);
    assert_eq!(enc, vec![1 ^ 0x0f, 2 ^ 0xf0, 3 ^ 0x55, 4 ^ 0x0f, 250 ^ 0xf0]);
    assert_eq!(decrypt_for_viewer_impl(&config, 5, &enc, Some(&key)), Some(data.clone()));
    assert_eq!(decrypt_for_viewer_impl(&config, 1, &enc, Some(&key)), Some(data));
    assert_eq!(decrypt_for_viewer_impl(&config, 9, &enc, Some(&key)), None);
    assert_eq!(decrypt_for_viewer_impl(&config, 5, &enc, None), None);
}

#[test]
fn scores() {
    assert_eq!(calculate_diversification_score(3), 30);
    assert_eq!(calculate_diversification_score(12), 100);
    assert_eq!(calculate_risk_score(3), 70);
    assert_eq!(calculate_risk_score(10), 0);
}

#[test]
fn private_rebalance_checks() {
    assert!(verify_rebalancing_constraints(&vec![5000, 5000], &vec![4500, 5500], 6000, 500));
    assert!(!verify_rebalancing_constraints(&vec![5000, 5000], &vec![4000, 6000], 6000, 500));
    assert!(!verify_rebalancing_constraints(&vec![5000, 5000], &vec![5000, 4000], 6000, 500));
    assert!(!verify_rebalancing_constraints(&vec![5000], &vec![5000, 5000], 6000, 500));
    assert!(!verify_rebalancing_constraints(&vec![0, 10000], &vec![0, 10000], 10000, 500));
    let ok = vec![ComponentPrivacyMode::Public(5000), ComponentPrivacyMode::Public(5000)];
    assert_eq!(execute_private_rebalancing(2, 2, 2, &ok), Ok(()));
    assert_eq!(execute_private_rebalancing(2, 1, 1, &ok), Err(IndexError::InvalidCommitmentProof));
    let too_big = vec![ComponentPrivacyMode::Public(6000), ComponentPrivacyMode::Public(4000)];
    assert_eq!(execute_private_rebalancing(2, 2, 2, &too_big), Err(IndexError::RebalancingConstraintsViolated));
    let hidden = vec![ComponentPrivacyMode::Public(5000), ComponentPrivacyMode::Private];
    assert_eq!(execute_private_rebalancing(2, 2, 2, &hidden), Err(IndexError::PrivateConstraintVerificationNotSupported));
    let sealed = vec![ComponentPrivacyMode::Authorized];
    assert_eq!(execute_private_rebalancing(1, 1, 1, &sealed), Err(IndexError::AuthorizedConstraintVerificationNotSupported));
}

fn holdings() -> Vec<HeldAsset> {
    vec![
        HeldAsset { asset: 1, balance: Some(100), weight: 0, is_private: true },
        HeldAsset { asset: 2, balance: None, weight: 0, is_private: true },
        HeldAsset { asset: 3, balance: Some(50), weight: 6000, is_private: false },
        HeldAsset { asset: 1, balance: Some(5), weight: 4000, is_private: false },
    ]
}

#[test]
fn viewer_views() {
    let h = holdings();
    assert_eq!(calculate_total_portfolio_value(&h), 155);
    let agg = calculate_aggregate_metrics(&h);
    assert_eq!((agg.asset_count, agg.total_value, agg.diversification_score), (4, 155, 40));
    match get_components_for_viewer_impl(ViewerAccessLevel::Investor, &h) {
        ComponentView::AssetsOnly(v) => assert_eq!(v, vec![1, 2, 3, 1]),
        _ => panic!("investors see the assets"),
    }
    match get_components_for_viewer_impl(ViewerAccessLevel::Compliance, &h) {
        ComponentView::Aggregate(m) => assert_eq!(m, agg),
        _ => panic!("privileged viewers see aggregates"),
    }
    assert_eq!(calculate_component_values_for_viewer(true, &h), vec![(1, 100), (3, 50), (1, 5)]);
    assert!(calculate_component_values_for_viewer(false, &h).is_empty());
    match get_nav_for_viewer_impl(ViewerAccessLevel::Emergency, true, &h) {
        NavResponse::Detailed { current_nav, component_values, performance } => {
            assert_eq!(current_nav, 155);
            assert_eq!(component_values.len(), 3);
            assert_eq!(performance.total_return_bps, 1500);
        },
        _ => panic!("privileged viewers see the breakdown"),
    }
    match get_nav_for_viewer_impl(ViewerAccessLevel::Public, true, &h) {
        NavResponse::Aggregate(v) => assert_eq!(v, 155),
        _ => panic!("public viewers see the total"),
    }
    let summary = get_portfolio_summary_for_viewer_impl(ViewerAccessLevel::Authorized, &h);
    assert_eq!(summary.components, Some(vec![1, 2]));
    assert_eq!(summary.risk_score, 60);
    assert_eq!(get_portfolio_summary_for_viewer_impl(ViewerAccessLevel::Investor, &h).components, None);
    assert_eq!(get_actual_asset_allocation(&h, 1), 3500);
    assert_eq!(get_actual_asset_allocation(&h, 3), 6000);
    assert_eq!(get_actual_asset_allocation(&h, 9), 0);
}

#[test]
fn commitment_targets_by_asset() {
    let existing = vec![(100, 1), (101, 2), (102, 1)];
    assert_eq!(update_private_component_commitments(&existing, &vec![1, 2]), Ok(vec![100, 101]));
    assert_eq!(update_private_component_commitments(&existing, &vec![2, 3]), Err(IndexError::ComponentNotFound));
}

#[test]
fn component_balances_listing() {
    let mut index = private_index();
    rebalance(&mut index, admin(), vec![add(10, 6000), add(11, 4000)], None, 2_592_000).unwrap();
    index.set_component_balance(11, 9);
    assert_eq!(index.get_all_component_balances(), vec![(10, 0), (11, 9)]);
}

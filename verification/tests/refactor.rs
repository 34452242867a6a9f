use normal_index::errors::IndexError;
use normal_index::index::{
    ComponentAction, ComponentUpdate, Index, IndexCaller, IndexComponent, RebalanceParams, RefactorParams, SwapDirection,
    SwapParams, SwapUtilityParams,
};

const CONTRACT: u64 = 99;
const SHARE: u64 = 98;
const ADMIN: u64 = 1;
const ASSET: u64 = 5;

fn create_test_index() -> Index {
    Index::new(CONTRACT, SHARE, false, 0, ADMIN, &vec![], 0)
}

fn admin() -> IndexCaller {
    IndexCaller { address: ADMIN, is_admin: true, is_whitelisted: false, is_blacklisted: false }
}

fn setup_components(index: &mut Index, tokens_with_weights: Vec<(u64, u128)>) {
    for (token, weight) in tokens_with_weights {
        index.components.push(IndexComponent { token, asset: ASSET, weight, balance: None });
    }
}

fn params(component_updates: Vec<ComponentUpdate>) -> RefactorParams {
    RefactorParams { component_updates }
}

fn upd(token: u64, new_weight: u128, action: ComponentAction) -> ComponentUpdate {
    ComponentUpdate { token, new_weight, action }
}

// The ledger time of a fresh test environment.
const NOW: u64 = 0;

#[test]
fn test_refactor_add_component() {
    let mut index = create_test_index();
    let token = 10;
    let time_before = NOW;
    index.refactor(admin(), &params(vec![upd(token, 10000, ComponentAction::Add)]), ASSET, NOW).unwrap();
    let component = index.get_component_safe(token).unwrap();
    assert_eq!(component.weight, 10000);
    let last_updated = index.last_updated_ts;
    assert!(last_updated >= time_before, "last_updated_ts should be updated");
    let last_rebalance = index.last_rebalance_ts;
    assert_eq!(last_rebalance, 0, "last_rebalance_ts should not be updated by refactor");
}

#[test]
fn test_refactor_remove_component() {
    let mut index = create_test_index();
    let token = 10;
    setup_components(&mut index, vec![(token, 10000)]);
    assert!(index.get_component_safe(token).is_some());
    index.refactor(admin(), &params(vec![upd(token, 0, ComponentAction::Remove)]), ASSET, NOW).unwrap();
    assert!(index.get_component_safe(token).is_none(), "Component should be removed");
}

#[test]
fn test_refactor_update_weight() {
    let mut index = create_test_index();
    let token = 10;
    setup_components(&mut index, vec![(token, 5000)]);
    assert_eq!(index.get_component_safe(token).unwrap().weight, 5000);
    index.refactor(admin(), &params(vec![upd(token, 10000, ComponentAction::UpdateWeight)]), ASSET, NOW).unwrap();
    assert_eq!(index.get_component_safe(token).unwrap().weight, 10000);
}

#[test]
fn test_refactor_weight_sum_must_equal_10000() {
    let mut index = create_test_index();
    let updates = vec![upd(10, 6000, ComponentAction::Add), upd(11, 4000, ComponentAction::Add)];
    index.refactor(admin(), &params(updates), ASSET, NOW).unwrap();
    assert_eq!(index.get_all_components().len(), 2);
}

#[test]
fn test_refactor_weight_sum_not_10000_fails() {
    let mut index = create_test_index();
    let updates = vec![upd(10, 5000, ComponentAction::Add), upd(11, 4000, ComponentAction::Add)];
    let r = index.refactor(admin(), &params(updates), ASSET, NOW);
    assert_eq!(r, Err(IndexError::InvalidWeightSum));
    assert!(index.get_all_components().is_empty());
}

#[test]
fn test_refactor_multiple_updates_weight_sum_validation() {
    let mut index = create_test_index();
    let updates1 = vec![upd(10, 5000, ComponentAction::Add), upd(11, 5000, ComponentAction::Add)];
    index.refactor(admin(), &params(updates1), ASSET, NOW).unwrap();
    let updates2 = vec![upd(10, 6000, ComponentAction::UpdateWeight), upd(11, 4000, ComponentAction::UpdateWeight)];
    index.refactor(admin(), &params(updates2), ASSET, NOW).unwrap();
    let comp1 = index.get_component_safe(10).unwrap();
    let comp2 = index.get_component_safe(11).unwrap();
    assert_eq!(comp1.weight, 6000);
    assert_eq!(comp2.weight, 4000);
    assert_eq!(comp1.weight + comp2.weight, 10000);
}

#[test]
fn test_refactor_requires_admin() {
    let mut index = create_test_index();
    let non_admin = IndexCaller { address: 7, is_admin: false, is_whitelisted: false, is_blacklisted: false };
    let r = index.refactor(non_admin, &params(vec![upd(10, 10000, ComponentAction::Add)]), ASSET, NOW);
    assert_eq!(r, Err(IndexError::UnauthorizedRefactor));
}

#[test]
fn test_refactor_blacklisted_admin_fails() {
    let mut index = create_test_index();
    let blacklisted_admin = IndexCaller { is_blacklisted: true, ..admin() };
    let r = index.refactor(blacklisted_admin, &params(vec![upd(10, 10000, ComponentAction::Add)]), ASSET, NOW);
    assert_eq!(r, Err(IndexError::Blacklisted));
}

#[test]
fn test_refactor_admin_can_refactor_anytime() {
    let mut index = create_test_index();
    index.refactor(admin(), &params(vec![upd(10, 10000, ComponentAction::Add)]), ASSET, NOW).unwrap();
    index.refactor(admin(), &params(vec![upd(11, 10000, ComponentAction::UpdateWeight)]), ASSET, NOW).unwrap();
}

#[test]
fn test_operations_allowed_after_rebalance() {
    let mut index = create_test_index();
    index.last_rebalance_ts = 100;
    index.last_updated_ts = 100;
    index.refactor(admin(), &params(vec![upd(10, 10000, ComponentAction::Add)]), ASSET, NOW).unwrap();
    index.last_rebalance_ts = NOW;
    let last_updated = index.last_updated_ts;
    let last_rebalance = index.last_rebalance_ts;
    assert!(last_rebalance >= last_updated);
    assert_ne!(index.mint(admin(), 1000, 0, 0), Err(IndexError::RebalanceRequiredAfterRefactor));
}

#[test]
fn test_refactor_with_no_components() {
    let mut index = create_test_index();
    assert_eq!(index.get_all_components().len(), 0);
    index.refactor(admin(), &params(vec![upd(10, 10000, ComponentAction::Add)]), ASSET, NOW).unwrap();
    assert_eq!(index.get_all_components().len(), 1);
}

#[test]
fn test_refactor_remove_last_component() {
    let mut index = create_test_index();
    setup_components(&mut index, vec![(10, 10000)]);
    assert_eq!(index.get_all_components().len(), 1);
    index.refactor(admin(), &params(vec![upd(10, 0, ComponentAction::Remove)]), ASSET, NOW).unwrap();
    assert_eq!(index.get_all_components().len(), 0);
}

#[test]
fn test_refactor_batch_updates() {
    let mut index = create_test_index();
    setup_components(&mut index, vec![(1, 4000), (2, 3000), (3, 3000)]);
    let updates = vec![
        upd(4, 2000, ComponentAction::Add),
        upd(3, 0, ComponentAction::Remove),
        upd(1, 5000, ComponentAction::UpdateWeight),
        upd(2, 3000, ComponentAction::UpdateWeight),
    ];
    index.refactor(admin(), &params(updates), ASSET, NOW).unwrap();
    assert_eq!(index.get_all_components().len(), 3);
    let comp1 = index.get_component_safe(1).unwrap();
    let comp2 = index.get_component_safe(2).unwrap();
    let comp4 = index.get_component_safe(4).unwrap();
    assert_eq!(comp1.weight, 5000);
    assert_eq!(comp2.weight, 3000);
    assert_eq!(comp4.weight, 2000);
    assert_eq!(comp1.weight + comp2.weight + comp4.weight, 10000);
    assert!(index.get_component_safe(3).is_none());
}

#[test]
fn refactor_holds_mints_and_redemptions_until_rebalance() {
    let mut index = create_test_index();
    index.last_rebalance_ts = 100;
    index.refactor(admin(), &params(vec![upd(10, 10000, ComponentAction::Add)]), ASSET, 200).unwrap();
    assert!(index.last_updated_ts > index.last_rebalance_ts);
    assert_eq!(index.mint(admin(), 1000, 0, 0), Err(IndexError::RebalanceRequiredAfterRefactor));
    let settings = normal_index::accrual::FeeSettings {
        fee_enabled: false, manager_fee_amount: 0, minimum_shares: 0, minimum_fee_threshold: 0,
    };
    let mut holder = normal_index::accrual::UserFeeState {
        balance: 1_000, last_fee_update: 0, accrued_manager_fees: 0, accrued_protocol_fees: 0,
    };
    assert_eq!(index.redeem(admin(), 10, &mut holder, &settings, 0, 200), Err(IndexError::RebalanceRequiredAfterRefactor));
    let blacklisted = IndexCaller { is_blacklisted: true, ..admin() };
    assert_eq!(index.mint(blacklisted, 1000, 0, 0), Err(IndexError::Blacklisted));
    assert_eq!(index.redeem(blacklisted, 10, &mut holder, &settings, 0, 200), Err(IndexError::Blacklisted));
    // A rebalance after the cooldown lifts the hold.
    let later = 100 + index.rebalance_threshold;
    let rb = RebalanceParams { target_nav: None, component_updates: vec![] };
    index.rebalance(admin(), &rb, ASSET, later).unwrap();
    assert_eq!(index.mint(admin(), 1000, 0, 0), Err(IndexError::PathIsEmpty));
    assert!(index.redeem(admin(), 10, &mut holder, &settings, 0, later).is_ok());
}

#[test]
fn refactor_refusals_change_nothing() {
    let mut index = create_test_index();
    setup_components(&mut index, vec![(1, 6000), (2, 4000)]);
    // Removing a token that is not a component is refused.
    let r = index.refactor(admin(), &params(vec![upd(1, 0, ComponentAction::Remove), upd(9, 0, ComponentAction::Remove)]), ASSET, 50);
    assert_eq!(r, Err(IndexError::ComponentNotFound));
    assert_eq!(index.get_all_components().len(), 2);
    assert_eq!(index.last_updated_ts, 0);
    // A rebalance authority may refactor a private index.
    let mut with_authority = Index::new(CONTRACT, SHARE, false, 0, ADMIN, &vec![7], 0);
    let authority = IndexCaller { address: 7, is_admin: false, is_whitelisted: false, is_blacklisted: false };
    with_authority.refactor(authority, &params(vec![upd(10, 10000, ComponentAction::Add)]), ASSET, 5).unwrap();
    assert_eq!(with_authority.last_updated_ts, 5);
}

#[test]
fn swap_calls_carry_each_swap_and_its_component_asset() {
    let mut index = create_test_index();
    index.components.push(IndexComponent { token: 10, asset: 77, weight: 6000, balance: None });
    index.components.push(IndexComponent { token: 11, asset: 78, weight: 4000, balance: None });
    let buy = SwapParams { token_in: SHARE, token_out: 10, amount_in: 500, amount_out_min: 475, to: CONTRACT };
    let sell = SwapParams { token_in: 11, token_out: SHARE, amount_in: 300, amount_out_min: 285, to: CONTRACT };
    let calls = index.plan_swap_calls(&vec![buy, sell]).unwrap();
    assert_eq!(calls, vec![
        SwapUtilityParams { provider: None, token_in: SHARE, token_out: 10, amount_in: 500, amount_out_min: 475, to: CONTRACT, asset: 77, direction: SwapDirection::Buy },
        SwapUtilityParams { provider: None, token_in: 11, token_out: SHARE, amount_in: 300, amount_out_min: 285, to: CONTRACT, asset: 78, direction: SwapDirection::Buy },
    ]);
    let stray = SwapParams { token_in: SHARE, token_out: 12, amount_in: 1, amount_out_min: 0, to: CONTRACT };
    assert_eq!(index.plan_swap_calls(&vec![buy, stray]), None);
    assert_eq!(index.swap_utility_params(&stray), None);
}

#[test]
fn well_formedness_check() {
    let mut index = create_test_index();
    assert!(index.is_well_formed());
    setup_components(&mut index, vec![(10, 5000), (10, 5000)]);
    assert!(!index.is_well_formed());
    let mut dup = Index::new(CONTRACT, SHARE, false, 0, ADMIN, &vec![], 0);
    dup.authorities = vec![3, 3];
    assert!(!dup.is_well_formed());
}

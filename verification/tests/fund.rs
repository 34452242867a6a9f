use normal_index::components::{Component, ComponentAction, ComponentBook, ComponentUpdate, RedeemLine, TradeParams};
use normal_index::errors::{AccessError, IndexFundError};
use normal_index::fund::{check_investor_access, CallerRoles, FundAuthorities, IndexFund, TokenFeeLedger};
use normal_index::volume::VolumeFeeTier;

const QUOTE: u64 = 1;
const CONTRACT: u64 = 99;
const ASSET: u64 = 7;

fn admin() -> CallerRoles {
    CallerRoles { is_admin: true, is_whitelisted: false, is_blacklisted: false, is_rebalance_authority: false }
}

fn outsider() -> CallerRoles {
    CallerRoles { is_admin: false, is_whitelisted: false, is_blacklisted: false, is_rebalance_authority: false }
}

fn add(token: u64, w: u128) -> ComponentUpdate {
    ComponentUpdate { token, action: ComponentAction::Add, new_weight: Some(w), new_oracle: Some(token + 100), new_adapter: Some(3) }
}

fn authorities() -> FundAuthorities {
    FundAuthorities { admin: 2, emergency_admin: 3, fee_admin: 4, rewards_admin: 5, operations_admin: 6, rebalance_authorities: vec![7] }
}

/// A fund holding the quote token (60%) and token 10 (40%).
fn fund() -> IndexFund {
    IndexFund::new(90, 91, authorities(), QUOTE, false, 100, &vec![add(QUOTE, 6000), add(10, 4000)], ASSET).unwrap()
}

#[test]
fn construction_checks_weights() {
    let r = IndexFund::new(90, 91, authorities(), QUOTE, true, 100, &vec![add(QUOTE, 6000), add(10, 3000)], ASSET);
    assert_eq!(r.err().map(|_| ()), Some(()));
    let r = IndexFund::new(90, 91, authorities(), QUOTE, true, 100, &vec![add(QUOTE, 6000), add(QUOTE, 4000)], ASSET);
    assert!(r.is_err());
    let f = fund();
    assert_eq!(f.components.len(), 2);
    assert_eq!(f.get_trade_fee_tiers().len(), 4);
}

#[test]
fn investor_access() {
    assert_eq!(check_investor_access(outsider(), true), Ok(()));
    assert_eq!(check_investor_access(outsider(), false), Err(IndexFundError::NotWhitelisted));
    assert_eq!(check_investor_access(CallerRoles { is_blacklisted: true, ..admin() }, true), Err(IndexFundError::Blacklisted));
}

#[test]
fn mint_flow_books_fees_and_credits() {
    let mut f = fund();
    assert_eq!(f.quote_mint(admin(), 0, 0, 0, 0, 0), Err(IndexFundError::InvalidAmount));
    assert_eq!(f.quote_mint(outsider(), 10, 0, 0, 0, 0), Err(IndexFundError::NotWhitelisted));
    // Default tiers: 1% protocol fee, nothing for the manager.
    let quote = f.quote_mint(admin(), 10_000, 2_592_000 * 2, 0, 0, 0).unwrap();
    assert_eq!((quote.protocol_fee, quote.manager_fee, quote.net_amount, quote.shares, quote.month_bucket), (100, 0, 9_900, 9_900, 2));
    let swaps = f.begin_mint(quote, CONTRACT).unwrap();
    assert_eq!(swaps, vec![TradeParams { token_in: QUOTE, token_out: 10, amount_in: 3_960, amount_out_min: 3_762, to: CONTRACT, asset: ASSET }]);
    assert_eq!(f.components.get_component_balance(QUOTE), 5_940);
    assert_eq!(f.fees.accrued_protocol_fee(QUOTE), 100);
    f.finish_mint(quote, &vec![3_900]);
    assert_eq!(f.components.get_component_balance(10), 3_900);
    assert_eq!(f.total_mints, 9_900);
}

#[test]
fn mint_without_components_is_refused() {
    let mut f = IndexFund::new(90, 91, authorities(), QUOTE, true, 100, &Vec::new(), ASSET).unwrap();
    let quote = f.quote_mint(admin(), 1_000, 0, 0, 0, 0).unwrap();
    assert_eq!(f.begin_mint(quote, CONTRACT), Err(IndexFundError::ComponentNotFound));
    assert_eq!(f.fees.accrued_protocol_fee(QUOTE), 0);
}

#[test]
fn redeem_pays_out_share_of_components() {
    let mut f = fund();
    f.components.set_component_balance(QUOTE, 6_000);
    f.components.set_component_balance(10, 4_000);
    assert_eq!(f.redeem(admin(), 0, 0, 0, 10, 100, 1_000).err(), Some(IndexFundError::InvalidAmount));
    assert_eq!(f.redeem(admin(), 20, 0, 0, 10, 100, 1_000).err(), Some(IndexFundError::InsufficientBalance));
    let out = f.redeem(admin(), 10, 0, 0, 10, 100, 1_000).unwrap();
    assert_eq!(out.nav_to_redeem, 100);
    // 10% of each component; the default tier keeps 1% back.
    assert_eq!(
        out.lines,
        vec![
            RedeemLine { token: QUOTE, payout: 594, protocol_fee: 6, manager_fee: 0 },
            RedeemLine { token: 10, payout: 396, protocol_fee: 4, manager_fee: 0 },
        ]
    );
    // Payout and fees add up to what left each component's share.
    for line in &out.lines {
        assert_eq!(line.payout + line.protocol_fee + line.manager_fee, if line.token == QUOTE { 600 } else { 400 });
    }
    assert_eq!(f.components.get_component_balance(QUOTE), 5_406);
    assert_eq!(f.fees.accrued_protocol_fee(10), 4);
    assert_eq!(f.fees.accrued_manager_fee(10), 0);
    assert_eq!(f.total_redemptions, 10);
}

#[test]
fn ledger_claims_everything_once() {
    let mut ledger = TokenFeeLedger::new();
    ledger.accrue(5, 30, 0);
    ledger.accrue(5, 12, 7);
    assert_eq!(ledger.claim_protocol_fees(5), 42);
    assert_eq!(ledger.claim_protocol_fees(5), 0);
    assert_eq!(ledger.claim_manager_fees(5), 7);
    assert_eq!(ledger.claim_manager_fees(6), 0);
}

#[test]
fn refactor_rules() {
    let mut f = fund();
    let blacklisted = CallerRoles { is_blacklisted: true, ..admin() };
    assert_eq!(f.refactor(blacklisted, &vec![], ASSET, 5), Err(IndexFundError::Blacklisted));
    assert_eq!(f.refactor(outsider(), &vec![], ASSET, 5), Err(IndexFundError::UnauthorizedRefactor));
    let reweight = ComponentUpdate { token: 10, action: ComponentAction::UpdateWeight, new_weight: Some(5000), new_oracle: None, new_adapter: None };
    assert_eq!(f.refactor(admin(), &vec![reweight], ASSET, 5), Err(IndexFundError::InvalidWeightSum));
    let missing = ComponentUpdate { token: 77, action: ComponentAction::Remove, new_weight: None, new_oracle: None, new_adapter: None };
    assert_eq!(f.refactor(admin(), &vec![missing], ASSET, 5), Err(IndexFundError::ComponentNotFound));
    assert_eq!(f.refactor(admin(), &vec![add(10, 1)], ASSET, 5), Err(IndexFundError::InvalidComponentAction));
    let move_weight = vec![
        ComponentUpdate { token: QUOTE, action: ComponentAction::UpdateWeight, new_weight: Some(5000), new_oracle: None, new_adapter: None },
        ComponentUpdate { token: 10, action: ComponentAction::UpdateAdapter, new_weight: Some(5000), new_oracle: None, new_adapter: Some(4) },
    ];
    f.refactor(admin(), &move_weight, ASSET, 5).unwrap();
    assert_eq!(f.components.get_component(10).unwrap().adapter, 4);
    assert_eq!(f.last_updated_ts, 5);
    assert_eq!(f.last_rebalance_ts, 0);
}

#[test]
fn tier_schedule_replacement() {
    let mut f = fund();
    assert_eq!(f.set_trade_fee_tiers(vec![]), Err(IndexFundError::InvalidAmount));
    let tiers = vec![
        VolumeFeeTier { min_monthly_volume: 0, protocol_fee_bps: 10, manager_fee_bps: 20 },
        VolumeFeeTier { min_monthly_volume: 10, protocol_fee_bps: 10, manager_fee_bps: 10 },
        VolumeFeeTier { min_monthly_volume: 20, protocol_fee_bps: 5, manager_fee_bps: 5 },
        VolumeFeeTier { min_monthly_volume: 30, protocol_fee_bps: 1, manager_fee_bps: 1 },
    ];
    f.set_trade_fee_tiers(tiers.clone()).unwrap();
    assert_eq!(f.get_trade_fee_tiers(), tiers);
    let quote = f.quote_mint(admin(), 10_000, 0, 15, 0, 0).unwrap();
    assert_eq!((quote.protocol_fee, quote.manager_fee), (10, 10));
}

#[test]
fn component_book_deposit_allocation() {
    let mut book = ComponentBook::new();
    book.set_component(QUOTE, Component { asset: ASSET, weight: 5000, oracle: 0, adapter: 3 });
    book.set_component(10, Component { asset: ASSET, weight: 5000, oracle: 0, adapter: 3 });
    assert_eq!(book.generate_swap_params(QUOTE, 0, CONTRACT), Err(IndexFundError::PathIsEmpty));
    let swaps = book.generate_swap_params(QUOTE, 1_000, CONTRACT).unwrap();
    assert_eq!(swaps.len(), 1);
    assert_eq!((swaps[0].token_out, swaps[0].amount_in, swaps[0].amount_out_min), (10, 500, 475));
    // A buy whose minimum output rounds to zero is refused.
    assert_eq!(book.generate_swap_params(5, 2, CONTRACT), Err(IndexFundError::PathIsEmpty));
    let planned = book.plan_weight_based_mint(QUOTE, 1_000, CONTRACT).unwrap();
    assert_eq!(planned, swaps);
    assert_eq!(book.get_component_balance(QUOTE), 500);
    book.apply_weight_based_mint_results(QUOTE, 1_000, &vec![480]);
    assert_eq!(book.get_component_balance(10), 480);
    // Re-storing a component keeps its balance.
    book.set_component(10, Component { asset: ASSET, weight: 5000, oracle: 1, adapter: 3 });
    assert_eq!(book.get_component_balance(10), 480);
}

#[test]
fn redeem_books_protocol_and_manager_parts_in_their_own_buckets() {
    let mut f = IndexFund::new(90, 91, authorities(), QUOTE, true, 100, &vec![add(QUOTE, 10000)], ASSET).unwrap();
    f.components.set_component_balance(QUOTE, 10_000);
    f.trade_fee_tiers = Some(vec![VolumeFeeTier { min_monthly_volume: 0, protocol_fee_bps: 20, manager_fee_bps: 10 }]);
    let out = f.redeem(outsider(), 100, 0, 0, 100, 100, 1_000).unwrap();
    assert_eq!(out.lines, vec![RedeemLine { token: QUOTE, payout: 9_970, protocol_fee: 20, manager_fee: 10 }]);
    assert_eq!(f.fees.accrued_protocol_fee(QUOTE), 20);
    assert_eq!(f.fees.accrued_manager_fee(QUOTE), 10);
}

#[test]
fn fund_setters_need_their_role() {
    let mut f = fund();
    // Authorities: admin 2, fee admin 4, operations admin 6.
    assert_eq!(f.set_factory_as(9, 55), Err(AccessError::Unauthorized));
    assert_eq!(f.factory, 90);
    assert_eq!(f.set_factory_as(6, 55), Ok(()));
    assert_eq!(f.factory, 55);
    assert_eq!(f.set_adapter_registry_as(2, 56), Ok(()));
    assert_eq!(f.adapter_registry, 56);
    assert_eq!(f.set_rebalance_authority_as(4, 8, true), Err(AccessError::Unauthorized));
    assert_eq!(f.set_rebalance_authority_as(6, 8, true), Ok(()));
    assert_eq!(f.get_rebalance_authorities(), vec![7, 8]);
    assert_eq!(f.set_rebalance_threshold_as(5, 10), Err(AccessError::Unauthorized));
    assert_eq!(f.set_rebalance_threshold_as(2, 10), Ok(()));
    assert_eq!(f.rebalance_threshold, 10);
    assert_eq!(f.set_trade_fee_tiers_as(6, vec![]), Err(AccessError::Unauthorized));
    assert_eq!(f.set_trade_fee_tiers_as(4, vec![]), Ok(Err(IndexFundError::InvalidAmount)));
}

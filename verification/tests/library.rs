use normal_index::adapters::{
    convert_to_swaps_chain, protocol_swap_exact_tokens_for_tokens, AquariusAdapter, Direction, NormalAdapter, Side,
    SoroswapAdapter, TradeMetadata,
};
use normal_index::components::{TradeParams};
use normal_index::errors::{AccessError, AdapterError, AdapterRegistryError, IndexError, IndexFundError, PriceError};
use normal_index::execution::{execute_swaps, get_adapter_from_registry, swap_component_token, swap_failure_code, SwapOutcome};
use normal_index::factory::{get_index_salt, IndexFactory, SaltPart};
use normal_index::fee::calculate_fee_split;
use normal_index::oracle::{OracleReading, OracleUtils, OracleValidity};
use normal_index::registry::AdapterRegistry;
use normal_index::shares::{get_current_share_price, nav_amount_to_shares, get_current_nav, shares_to_nav, vault_amount_to_shares, Holding};
use normal_index::tiers::{TierCalculator, TierRate, UserTierData};
use normal_index::volume::{add_monthly_volume, default_trade_fee_tiers, get_month_bucket, get_volume_tier_fee_bps, validate_trade_fee_tiers, VolumeFeeTier};

fn trade(token_in: u64, token_out: u64, amount_in: u128, amount_out_min: u128) -> TradeParams {
    TradeParams { token_in, token_out, amount_in, amount_out_min, to: 77, asset: 5 }
}

// ---- fee split ----

#[test]
fn fee_split_exact_values() {
    assert_eq!(calculate_fee_split(1_000_000, 100, 50), (15_000, 10_000, 5_000));
    assert_eq!(calculate_fee_split(999, 100, 0), (9, 9, 0));
    assert_eq!(calculate_fee_split(0, 100, 50), (0, 0, 0));
}

// ---- shares ----

#[test]
fn vault_shares_proportional_and_errors() {
    assert_eq!(vault_amount_to_shares(100, 1_000, 500), Ok(200));
    assert_eq!(vault_amount_to_shares(100, 0, 0), Ok(100));
    assert_eq!(vault_amount_to_shares(100, 5, 0), Err(IndexError::InvalidSharesDetected));
    // An overflowing product falls back to the amount itself.
    assert_eq!(vault_amount_to_shares(u128::MAX, 2, 1), Ok(u128::MAX));
}

#[test]
fn nav_shares_rounds_down() {
    assert_eq!(nav_amount_to_shares(10, 3, 7), Ok(4));
    assert_eq!(nav_amount_to_shares(10, 0, 0), Ok(10));
    assert_eq!(nav_amount_to_shares(10, 3, 0), Err(IndexFundError::InvalidSharesDetected));
    assert_eq!(shares_to_nav(3, 7, 100), Ok(42));
    assert!(shares_to_nav(8, 7, 100).is_err());
}

#[test]
fn share_price_and_nav_of_holdings() {
    assert_eq!(get_current_share_price(0, 500, 100), 100);
    assert_eq!(get_current_share_price(4, 0, 100), 100);
    assert_eq!(get_current_share_price(4, 500, 100), 125);
    let holdings = vec![Holding { balance: 2, price: 30 }, Holding { balance: 0, price: 99 }, Holding { balance: 5, price: 1 }];
    assert_eq!(get_current_nav(&holdings), 65);
}

#[test]
fn mint_then_redeem_pays_no_more_than_deposit() {
    let (amount, total, nav) = (1_000u128, 3_000u128, 7_000u128);
    let shares = nav_amount_to_shares(amount, total, nav).unwrap();
    let paid = shares_to_nav(shares, total + shares, nav + amount).unwrap();
    assert!(paid <= amount);
}

// ---- volume tiers ----

#[test]
fn default_tiers_lower_the_rate_with_volume() {
    let tiers = default_trade_fee_tiers();
    assert_eq!(get_volume_tier_fee_bps(&tiers, 0), (100, 0));
    assert_eq!(get_volume_tier_fee_bps(&tiers, 10_000 * 1_0000000 - 1), (100, 0));
    assert_eq!(get_volume_tier_fee_bps(&tiers, 10_000 * 1_0000000), (80, 0));
    assert_eq!(get_volume_tier_fee_bps(&tiers, 50_000 * 1_0000000), (60, 0));
    assert_eq!(get_volume_tier_fee_bps(&tiers, 2_000_000_000_000), (40, 0));
    assert_eq!(get_month_bucket(2_592_000 * 3 + 5), 3);
    assert_eq!(add_monthly_volume(u128::MAX - 1, 5), u128::MAX);
    assert_eq!(validate_trade_fee_tiers(&tiers), Ok(()));
    assert_eq!(validate_trade_fee_tiers(&vec![]), Err(IndexFundError::InvalidAmount));
}

#[test]
fn rising_tiers_are_picked_by_volume() {
    let tiers = vec![
        VolumeFeeTier { min_monthly_volume: 0, protocol_fee_bps: 10, manager_fee_bps: 1 },
        VolumeFeeTier { min_monthly_volume: 100, protocol_fee_bps: 20, manager_fee_bps: 2 },
    ];
    assert_eq!(get_volume_tier_fee_bps(&tiers, 99), (10, 1));
    assert_eq!(get_volume_tier_fee_bps(&tiers, 100), (20, 2));
}

#[test]
fn highest_reached_tier_wins_over_higher_rate() {
    let tiers = vec![
        VolumeFeeTier { min_monthly_volume: 0, protocol_fee_bps: 100, manager_fee_bps: 0 },
        VolumeFeeTier { min_monthly_volume: 10, protocol_fee_bps: 50, manager_fee_bps: 5 },
    ];
    assert_eq!(get_volume_tier_fee_bps(&tiers, 20), (50, 5));
    assert_eq!(get_volume_tier_fee_bps(&tiers, 9), (100, 0));
    let unordered = vec![
        VolumeFeeTier { min_monthly_volume: 10, protocol_fee_bps: 50, manager_fee_bps: 5 },
        VolumeFeeTier { min_monthly_volume: 5, protocol_fee_bps: 70, manager_fee_bps: 7 },
    ];
    assert_eq!(get_volume_tier_fee_bps(&unordered, 12), (50, 5));
    assert_eq!(get_volume_tier_fee_bps(&unordered, 4), (0, 0));
}

// ---- factory tiers ----

#[test]
fn tier_calculator_thresholds_and_rates() {
    let rates = vec![
        TierRate { threshold: 0, rate_bps: 30 },
        TierRate { threshold: 1_000, rate_bps: 20 },
        TierRate { threshold: 5_000, rate_bps: 10 },
    ];
    assert_eq!(TierCalculator::determine_user_tier_threshold(&rates, 999), 0);
    assert_eq!(TierCalculator::determine_user_tier_threshold(&rates, 1_000), 1_000);
    assert_eq!(TierCalculator::determine_user_tier_threshold(&rates, 7_000), 5_000);
    assert_eq!(TierCalculator::get_fee_rate_for_threshold(&rates, 5_000), 10);
    assert_eq!(TierCalculator::get_fee_rate_for_threshold(&rates, 42), 30);
    assert!(TierCalculator::validate_tier_config(&rates));
    assert!(!TierCalculator::validate_tier_config(&vec![TierRate { threshold: 1, rate_bps: 5 }]));
    assert!(!TierCalculator::validate_tier_config(&vec![TierRate { threshold: 0, rate_bps: 10_001 }]));
    let data = TierCalculator::compute_user_tier(&rates, 2_000, 50);
    assert_eq!(data.current_tier_threshold, 1_000);
    assert_eq!(data.current_fee_rate_bps, 20);
    // The cached rate is used whatever its age.
    let cached = UserTierData { current_fee_rate_bps: 7, ..data };
    assert_eq!(TierCalculator::get_user_fee_rate(&rates, Some(cached), 9_000, 1_000_000).0, 7);
    assert_eq!(TierCalculator::get_user_fee_rate(&rates, None, 9_000, 10).0, 10);
    // Tier data is recomputed once the cache is an hour old.
    assert_eq!(TierCalculator::get_user_tier_data(&rates, Some(data), 9_000, 50 + 3_599), (data, false));
    assert!(TierCalculator::get_user_tier_data(&rates, Some(data), 9_000, 50 + 3_600).1);
    // A volume change of more than a tenth drops the cache.
    assert_eq!(TierCalculator::invalidate_user_cache(Some(data), 2_200), Some(data));
    assert_eq!(TierCalculator::invalidate_user_cache(Some(data), 2_201), None);
}

// ---- adapter registry ----

#[test]
fn registry_read_after_write() {
    let mut reg = AdapterRegistry::new(100, 101, 102);
    assert_eq!(reg.get_adapter(1), Err(AdapterRegistryError::AdapterNameNotFound));
    assert_eq!(reg.get_adapter_name(10), Err(AdapterRegistryError::AdapterAddressNotFound));
    reg.set_adapter(1, 10).unwrap();
    reg.set_adapter(2, 20).unwrap();
    assert_eq!(reg.get_adapter(1), Ok(10));
    assert_eq!(reg.get_adapter_name(20), Ok(2));
    assert_eq!(reg.get_adapter_safe(3), None);
    // An adapter keeps one name.
    assert_eq!(reg.set_adapter(3, 10), Err(AdapterRegistryError::AdapterAddressAlreadyAssigned));
    // Re-pointing a name frees the old adapter.
    reg.set_adapter(1, 11).unwrap();
    assert_eq!(reg.get_adapter(1), Ok(11));
    assert_eq!(reg.get_adapter_name(10), Err(AdapterRegistryError::AdapterAddressNotFound));
    assert_eq!(reg.get_adapters(), vec![(1, 11), (2, 20)]);
    // Registering the same pair again changes nothing.
    reg.set_adapter(2, 20).unwrap();
    assert_eq!(reg.get_adapters(), vec![(1, 11), (2, 20)]);
}

// ---- adapters ----

#[test]
fn normal_adapter_direction_and_pair() {
    let adapter = NormalAdapter::new(1, 2, 3, 100);
    let meta = TradeMetadata { pair: Some(55), deadline: None };
    let buy = adapter.swap(trade(100, 9, 1_000, 950), meta).unwrap();
    assert_eq!(buy.direction, Direction::Buy);
    assert_eq!(buy.side, Side::Long);
    assert_eq!(buy.pair, 55);
    let sell = adapter.swap(trade(9, 100, 1_000, 950), meta).unwrap();
    assert_eq!(sell.direction, Direction::Sell);
    assert_eq!(adapter.swap(trade(9, 100, 1, 1), TradeMetadata { pair: None, deadline: None }), Err(AdapterError::InvalidArgument));
}

#[test]
fn soroswap_deadline_rules() {
    let adapter = SoroswapAdapter::new(1, 2, 3);
    let none = adapter.swap(trade(4, 5, 10, 9), TradeMetadata { pair: None, deadline: None }).unwrap();
    assert_eq!(none.deadline, u64::MAX);
    assert_eq!((none.path_from, none.path_to), (4, 5));
    let given = adapter.swap(trade(4, 5, 10, 9), TradeMetadata { pair: None, deadline: Some(1_234) }).unwrap();
    assert_eq!(given.deadline, 1_234);
    assert_eq!(given.amount_in, 10);
    assert_eq!(adapter.swap(trade(4, 5, 10, 9), TradeMetadata { pair: None, deadline: Some(-1) }), Err(AdapterError::InvalidArgument));
    assert_eq!(adapter.swap(trade(4, 5, u128::MAX, 9), TradeMetadata { pair: None, deadline: None }), Err(AdapterError::InvalidArgument));
    assert_eq!(SoroswapAdapter::swap_output(&vec![10, 7, 3]), Ok(3));
    assert_eq!(SoroswapAdapter::swap_output(&vec![]), Err(AdapterError::InvalidArgument));
    assert_eq!(SoroswapAdapter::swap_output(&vec![5, -1]), Err(AdapterError::InvalidArgument));
}

#[test]
fn aquarius_chain_building() {
    let h = |b: u8| [b; 32];
    assert_eq!(convert_to_swaps_chain(&vec![1, 2], &None).unwrap_err(), AdapterError::MissingPoolHashes);
    assert_eq!(convert_to_swaps_chain(&vec![1], &Some(vec![])).unwrap_err(), AdapterError::WrongMinimumPathLength);
    assert_eq!(convert_to_swaps_chain(&vec![1, 2, 3], &Some(vec![h(1)])).unwrap_err(), AdapterError::WrongPoolHashesLength);
    let chain = convert_to_swaps_chain(&vec![5, 2, 9], &Some(vec![h(1), h(2)])).unwrap();
    assert_eq!(chain.len(), 2);
    assert_eq!(chain[0].pair, (2, 5));
    assert_eq!(chain[0].token_out, 2);
    assert_eq!(chain[1].pair, (2, 9));
    assert_eq!(chain[1].pool_hash, h(2));
    let swap = protocol_swap_exact_tokens_for_tokens(10, 8, &vec![5, 2], 77, &Some(vec![h(3)])).unwrap();
    assert_eq!((swap.token_in, swap.in_amount, swap.out_min, swap.to), (5, 10, 8, 77));
    // The adapter itself never passes pool hashes.
    let adapter = AquariusAdapter::new(1, 2, 3);
    assert_eq!(adapter.swap(trade(5, 2, 10, 9)).unwrap_err(), AdapterError::MissingPoolHashes);
}

// ---- oracle ----

#[test]
fn oracle_price_by_validity() {
    let reading = OracleReading { last_price: 20_000_000, last_price_twap: 15_000_000 };
    assert_eq!(OracleUtils::get_token_price_usd_safe(Some((reading, OracleValidity::Valid))), Some(20_000_000));
    assert_eq!(OracleUtils::get_token_price_usd_safe(Some((reading, OracleValidity::TooVolatile))), Some(15_000_000));
    assert_eq!(OracleUtils::get_token_price_usd_safe(Some((reading, OracleValidity::Frozen))), None);
    assert_eq!(OracleUtils::get_token_price_usd_safe(None), None);
    assert_eq!(OracleUtils::get_token_price_usd(Some((reading, OracleValidity::StaleForPool))), Err(PriceError::Unauthorized));
    assert_eq!(OracleUtils::convert_token_to_usd(3, 20_000_000), 6);
    assert_eq!(OracleUtils::convert_token_to_usd(u128::MAX, 2), u128::MAX / 10_000_000);
    assert_eq!(OracleUtils::convert_token_to_usd_safe(3, Some((reading, OracleValidity::Valid))), Some(6));
    assert_eq!(OracleUtils::convert_token_to_usd_safe(3, Some((reading, OracleValidity::NonPositive))), None);
    assert_eq!(OracleUtils::convert_xlm_to_usd(1_000), 0);
    assert_eq!(OracleUtils::get_xlm_price_usd(), 0);
}

// ---- swap execution ----

#[test]
fn swap_results_and_codes() {
    let outcomes = vec![SwapOutcome::Swapped(40), SwapOutcome::Refused, SwapOutcome::CallFailed, SwapOutcome::Swapped(0)];
    assert_eq!(execute_swaps(&outcomes), vec![40, 0, 0, 0]);
    assert_eq!(swap_failure_code(SwapOutcome::Refused), Some(1000));
    assert_eq!(swap_failure_code(SwapOutcome::CallFailed), Some(999));
    assert_eq!(swap_failure_code(SwapOutcome::Swapped(1)), None);
    assert_eq!(swap_component_token(&trade(1, 9, 1, 1), 1), 9);
    assert_eq!(swap_component_token(&trade(9, 1, 1, 1), 1), 9);
    assert_eq!(get_adapter_from_registry(Some(3)), Ok(3));
    assert_eq!(get_adapter_from_registry(None), Err(IndexFundError::FailedToGetAdapter));
}

// ---- factory ----

#[test]
fn factory_registry_and_sequences() {
    let mut f = IndexFactory::new(1, 2, 500, 100, 3, 1_000_000);
    assert_eq!(f.get_contract_sequence(7), 0);
    f.add_deployed_index(7, 70);
    f.add_deployed_index(8, 80);
    f.add_deployed_index(7, 71);
    assert_eq!(f.get_deployed_indexes(7), vec![70, 71]);
    assert_eq!(f.get_deployed_indexes(8), vec![80]);
    assert_eq!(f.get_all_deployed_indexes(), vec![70, 80, 71]);
    assert_eq!(f.get_index_count(7), 2);
    assert_eq!(f.get_total_index_count(), 3);
    assert_eq!(f.get_contract_sequence(7), 2);
}

#[test]
fn factory_fee_switches_report_changes() {
    let mut f = IndexFactory::new(1, 2, 500, 100, 3, 1_000_000);
    assert!(f.get_index_fee_enabled(70));
    assert!(!f.set_index_fee_enabled(70, true));
    assert!(f.set_index_fee_enabled(70, false));
    assert!(!f.get_index_fee_enabled(70));
    let changed = f.batch_set_index_fee_enabled(&vec![(70, false), (71, false), (71, true), (72, true)]);
    assert_eq!(changed, vec![(71, false), (71, true)]);
    assert!(f.get_index_fee_enabled(71));
}

#[test]
fn factory_kill_create_is_never_reported() {
    let mut f = IndexFactory::new(1, 2, 500, 100, 3, 1_000_000);
    f.kill_create();
    assert!(f.is_killed_create);
    assert!(!f.get_is_killed_create());
    f.unkill_create();
    assert!(!f.is_killed_create);
}

#[test]
fn factory_deploy_returns_sequence() {
    let mut f = IndexFactory::new(1, 2, 500, 100, 3, 1_000_000);
    assert_eq!(f.deploy_index_contract(7, 70), 0);
    assert_eq!(f.deploy_index_contract(7, 71), 1);
    assert_eq!(f.deploy_index_contract(8, 80), 0);
    assert_eq!(f.get_deployed_indexes(7), vec![70, 71]);
}

#[test]
fn test_set_adapter() {
    let registry = AdapterRegistry::new(1, 1, 1);
    let _admin = 1u64;
    let _usdc = 2u64;
    assert!(registry.get_adapters().is_empty());
}

#[test]
fn registry_changes_need_owner_or_operations_admin() {
    let mut reg = AdapterRegistry::new(100, 101, 102);
    assert_eq!(reg.set_adapter_as(7, 1, 10), Err(AccessError::Unauthorized));
    assert_eq!(reg.get_adapter_safe(1), None);
    assert_eq!(reg.set_adapter_as(102, 1, 10), Ok(Ok(())));
    assert_eq!(reg.set_adapter_as(100, 2, 10), Ok(Err(AdapterRegistryError::AdapterAddressAlreadyAssigned)));
    assert_eq!(reg.set_privileged_addrs(102, 7), Err(AccessError::Unauthorized));
    assert_eq!(reg.set_privileged_addrs(100, 7), Ok(()));
    assert_eq!(reg.get_roles().operations_admin, 7);
    assert_eq!(reg.set_adapter_as(7, 3, 30), Ok(Ok(())));
    assert_eq!(reg.set_adapter_as(102, 4, 40), Err(AccessError::Unauthorized));
}

#[test]
fn index_salt_layout() {
    assert_eq!(get_index_salt(true, 9, 4), vec![SaltPart::Separator, SaltPart::TokenSymbol(4), SaltPart::Separator]);
    assert_eq!(
        get_index_salt(false, 9, 4),
        vec![SaltPart::Separator, SaltPart::TokenSymbol(4), SaltPart::Separator, SaltPart::Admin(9), SaltPart::Separator]
    );
    assert_eq!(get_index_salt(true, 1, 4), get_index_salt(true, 2, 4));
    assert_ne!(get_index_salt(false, 1, 4), get_index_salt(false, 2, 4));
}

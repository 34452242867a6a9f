//! The index fund: minting and redeeming shares against a basket of
//! components, volume-tiered trade fees accrued per token, component
//! refactors and rebalancing, and the fund's status queries.
//!
//! Token transfers, swaps, oracle prices and the share token are outside
//! the fund; its operations take what they return as arguments and return
//! the trades and payouts to execute.

use vstd::prelude::*;
use std::collections::HashMap;
use crate::errors::{AccessError, IndexFundError};
use crate::components::{
    ComponentBook, ComponentUpdate, TradeParams, RedeemLine, ComponentEntry, refactor_spec, refactor_fits,
    rebalance_swaps_spec, rebalance_fits, redeem_lines_spec, deposit_fits, weighted, mint_swaps_spec,
    direct_credit, redeem_entry_spec, weight_sum, trade_amount_total, direct_credit_total,
    lemma_mint_allocation_split, lemma_allocation_bounded, lemma_weight_sum_same_weights,
    lemma_refactor_weights_complete,
};
use crate::fee::{calculate_fee_split, fee_split_spec};
use crate::shares::{nav_amount_to_shares, nav_amount_to_shares_spec, shares_to_nav, shares_to_nav_spec};
use crate::volume::{VolumeFeeTier, get_volume_tier_fee_bps, tier_fee_bps_spec, default_trade_fee_tiers, default_tiers_spec, get_month_bucket, THIRTY_DAY};

verus! {

broadcast use vstd::std_specs::hash::group_hash_axioms;

/// Rebalance cooldown used until one is configured.
pub const DEFAULT_REBALANCE_THRESHOLD: u64 = 2_592_000;

/// Roles and list memberships of a caller.
#[derive(Debug, Clone, Copy, PartialEq, Eq, Structural)]
pub struct CallerRoles {
    pub is_admin: bool,
    pub is_whitelisted: bool,
    pub is_blacklisted: bool,
    pub is_rebalance_authority: bool,
}

/// Fees accrued per token, for the protocol and for the manager.
#[derive(Debug)]
pub struct TokenFeeLedger {
    protocol: HashMap<u64, u128>,
    manager: HashMap<u64, u128>,
}

pub open spec fn amount_in(m: Map<u64, u128>, token: u64) -> u128 {
    if m.contains_key(token) { m[token] } else { 0 }
}

pub open spec fn sat_add(a: u128, b: u128) -> u128 {
    if a + b > u128::MAX { u128::MAX } else { (a + b) as u128 }
}

/// Map after adding `add` (saturating) to `token`'s amount; nothing is
/// written for a zero amount.
pub open spec fn accrue_spec(m: Map<u64, u128>, token: u64, add: u128) -> Map<u64, u128> {
    if add > 0 { m.insert(token, sat_add(amount_in(m, token), add)) } else { m }
}

impl TokenFeeLedger {
    pub closed spec fn protocol_map(&self) -> Map<u64, u128> {
        self.protocol@
    }

    pub closed spec fn manager_map(&self) -> Map<u64, u128> {
        self.manager@
    }

    /// A ledger with nothing accrued.
    pub fn new() -> (l: TokenFeeLedger)
        ensures
            l.protocol_map() == Map::<u64, u128>::empty(),
            l.manager_map() == Map::<u64, u128>::empty(),
    {
        TokenFeeLedger { protocol: HashMap::new(), manager: HashMap::new() }
    }

    /// Protocol fees accrued in `token`.
    pub fn accrued_protocol_fee(&self, token: u64) -> (r: u128)
        ensures
            r == amount_in(self.protocol_map(), token),
    {
        match self.protocol.get(&token) {
            Some(v) => *v,
            None => 0,
        }
    }

    /// Manager fees accrued in `token`.
    pub fn accrued_manager_fee(&self, token: u64) -> (r: u128)
        ensures
            r == amount_in(self.manager_map(), token),
    {
        match self.manager.get(&token) {
            Some(v) => *v,
            None => 0,
        }
    }

    /// Adds fees accrued in `token` (saturating); zero amounts write nothing.
    pub fn accrue(&mut self, token: u64, protocol_fee: u128, manager_fee: u128)
        ensures
            final(self).protocol_map() == accrue_spec(old(self).protocol_map(), token, protocol_fee),
            final(self).manager_map() == accrue_spec(old(self).manager_map(), token, manager_fee),
    {
        if protocol_fee > 0 {
            let current = self.accrued_protocol_fee(token);
            self.protocol.insert(token, current.saturating_add(protocol_fee));
        }
        if manager_fee > 0 {
            let current = self.accrued_manager_fee(token);
            self.manager.insert(token, current.saturating_add(manager_fee));
        }
    }

    /// Takes all protocol fees accrued in `token`, leaving zero; returns the
    /// amount to transfer out (zero writes nothing).
    pub fn claim_protocol_fees(&mut self, token: u64) -> (r: u128)
        ensures
            r == amount_in(old(self).protocol_map(), token),
            final(self).protocol_map() == (if r == 0 { old(self).protocol_map() } else { old(self).protocol_map().insert(token, 0) }),
            final(self).manager_map() == old(self).manager_map(),
    {
        let accrued = self.accrued_protocol_fee(token);
        if accrued == 0 {
            return 0;
        }
        self.protocol.insert(token, 0);
        accrued
    }

    /// Takes all manager fees accrued in `token`, leaving zero; returns the
    /// amount to transfer out (zero writes nothing).
    pub fn claim_manager_fees(&mut self, token: u64) -> (r: u128)
        ensures
            r == amount_in(old(self).manager_map(), token),
            final(self).manager_map() == (if r == 0 { old(self).manager_map() } else { old(self).manager_map().insert(token, 0) }),
            final(self).protocol_map() == old(self).protocol_map(),
    {
        let accrued = self.accrued_manager_fee(token);
        if accrued == 0 {
            return 0;
        }
        self.manager.insert(token, 0);
        accrued
    }
}

/// Checks that a caller may mint or redeem: blacklisted callers never may,
/// and a private index admits only its admin and whitelisted callers.
pub fn check_investor_access(roles: CallerRoles, is_public: bool) -> (r: Result<(), IndexFundError>)
    ensures
        r == investor_access_spec(roles, is_public),
{
    if roles.is_blacklisted {
        return Err(IndexFundError::Blacklisted);
    }
    if !is_public && !roles.is_admin && !roles.is_whitelisted {
        return Err(IndexFundError::NotWhitelisted);
    }
    Ok(())
}

pub open spec fn investor_access_spec(roles: CallerRoles, is_public: bool) -> Result<(), IndexFundError> {
    if roles.is_blacklisted {
        Err(IndexFundError::Blacklisted)
    } else if !is_public && !roles.is_admin && !roles.is_whitelisted {
        Err(IndexFundError::NotWhitelisted)
    } else {
        Ok(())
    }
}

/// Outcome of the checks and arithmetic of a mint.
#[derive(Debug, Clone, Copy, PartialEq, Eq, Structural)]
pub struct MintQuote {
    pub protocol_fee: u128,
    pub manager_fee: u128,
    pub net_amount: u128,
    pub shares: u128,
    pub month_bucket: u64,
}

/// What a mint of `amount` quote tokens yields, or why it is refused.
pub open spec fn mint_quote_spec(roles: CallerRoles, is_public: bool, tiers: Seq<VolumeFeeTier>, amount: u128, now: u64,
    volume: u128, total_shares: u128, nav: u128) -> Result<MintQuote, IndexFundError> {
    if amount == 0 {
        Err(IndexFundError::InvalidAmount)
    } else if investor_access_spec(roles, is_public) is Err {
        Err(investor_access_spec(roles, is_public)->Err_0)
    } else {
        let (p, m) = tier_fee_bps_spec(tiers, volume);
        let (total, pf, mf) = fee_split_spec(amount, p, m);
        let net = if amount >= total { (amount - total) as u128 } else { 0 };
        match nav_amount_to_shares_spec(net, total_shares, nav) {
            None => Err(IndexFundError::InvalidSharesDetected),
            Some(shares) => Ok(MintQuote { protocol_fee: pf, manager_fee: mf, net_amount: net, shares, month_bucket: now / THIRTY_DAY }),
        }
    }
}

/// Outcome of a redemption.
#[derive(Debug)]
pub struct RedeemOutcome {
    /// NAV that the redeemed shares stood for.
    pub nav_to_redeem: u128,
    /// Component payouts and the fees kept back.
    pub lines: Vec<RedeemLine>,
    pub month_bucket: u64,
}

/// Timing of rebalances and who may rebalance a private fund.
#[derive(Debug, Clone)]
pub struct RebalanceStatus {
    pub can_rebalance: bool,
    pub time_until_next_rebalance: u64,
    pub last_rebalance_ts: u64,
    pub rebalance_threshold: u64,
    pub is_public: bool,
    /// The rebalance authorities; empty for a public fund.
    pub rebalance_authorities: Vec<u64>,
}

/// The role holders of a fund.
#[derive(Debug, Clone)]
pub struct FundAuthorities {
    pub admin: u64,
    pub emergency_admin: u64,
    pub fee_admin: u64,
    pub rewards_admin: u64,
    pub operations_admin: u64,
    pub rebalance_authorities: Vec<u64>,
}

/// Financial metrics of the fund.
#[derive(Debug, Clone, Copy, PartialEq, Eq, Structural)]
pub struct IndexFundMetrics {
    pub total_shares: u128,
    pub total_mints: u128,
    pub total_redemptions: u128,
    pub current_nav: u128,
    pub share_price: u128,
}

/// Operational status of the fund.
#[derive(Debug, Clone, Copy, PartialEq, Eq, Structural)]
pub struct IndexFundStatus {
    pub is_public: bool,
    pub can_rebalance: bool,
    pub last_rebalance_ts: u64,
    pub rebalance_threshold: u64,
}

/// Ledger maps after booking the fees of redemption lines in order.
pub open spec fn book_lines_protocol(m: Map<u64, u128>, lines: Seq<RedeemLine>) -> Map<u64, u128>
    decreases lines.len(),
{
    if lines.len() == 0 { m } else {
        let prev = book_lines_protocol(m, lines.drop_last());
        accrue_spec(prev, lines.last().token, lines.last().protocol_fee)
    }
}

pub open spec fn book_lines_manager(m: Map<u64, u128>, lines: Seq<RedeemLine>) -> Map<u64, u128>
    decreases lines.len(),
{
    if lines.len() == 0 { m } else {
        let prev = book_lines_manager(m, lines.drop_last());
        accrue_spec(prev, lines.last().token, lines.last().manager_fee)
    }
}

/// State of an index fund contract.
#[derive(Debug)]
pub struct IndexFund {
    /// The factory that deployed the fund.
    pub factory: u64,
    /// The adapter registry swaps are routed through.
    pub adapter_registry: u64,
    pub authorities: FundAuthorities,
    pub components: ComponentBook,
    pub fees: TokenFeeLedger,
    pub quote_token: u64,
    pub is_public: bool,
    pub initial_price: u128,
    pub rebalance_threshold: u64,
    pub last_rebalance_ts: u64,
    pub last_updated_ts: u64,
    pub total_mints: u128,
    pub total_redemptions: u128,
    pub trade_fee_tiers: Option<Vec<VolumeFeeTier>>,
}

impl IndexFund {
    /// The component registry is well formed and its weights total 10_000
    /// whenever it holds any component.
    pub open spec fn wf(&self) -> bool {
        &&& self.components.wf()
        &&& (self.components@.len() == 0 || weight_sum(self.components@) == 10_000)
    }

    /// The tiers in force: the configured ones, or the default schedule.
    pub open spec fn tiers_spec(&self) -> Seq<VolumeFeeTier> {
        match self.trade_fee_tiers {
            Some(t) => t@,
            None => default_tiers_spec(),
        }
    }

    /// Whether the rebalance cooldown has passed at `now`.
    pub open spec fn can_rebalance_spec(&self, now: u64) -> bool {
        now >= self.last_rebalance_ts + self.rebalance_threshold
    }

    /// Sets up a fund: stores the factory, the adapter registry and the role
    /// holders, and applies the initial components as a refactor of an empty
    /// registry (their weights must sum to 10_000 unless there are none).
    pub fn new(factory: u64, adapter_registry: u64, authorities: FundAuthorities, quote_token: u64, is_public: bool,
        initial_price: u128, components: &Vec<ComponentUpdate>, asset: u64) -> (r: Result<IndexFund, IndexFundError>)
        requires
            refactor_fits(Seq::empty(), components@, asset),
        ensures
            match refactor_spec(Seq::empty(), components@, asset) {
                Ok(s) => r is Ok && r->Ok_0.wf() && r->Ok_0.components@ == s
                    && r->Ok_0.factory == factory && r->Ok_0.adapter_registry == adapter_registry
                    && r->Ok_0.authorities == authorities
                    && r->Ok_0.quote_token == quote_token && r->Ok_0.is_public == is_public
                    && r->Ok_0.initial_price == initial_price
                    && r->Ok_0.rebalance_threshold == DEFAULT_REBALANCE_THRESHOLD
                    && r->Ok_0.last_rebalance_ts == 0 && r->Ok_0.last_updated_ts == 0
                    && r->Ok_0.total_mints == 0 && r->Ok_0.total_redemptions == 0
                    && r->Ok_0.trade_fee_tiers is None
                    && r->Ok_0.fees.protocol_map() == Map::<u64, u128>::empty()
                    && r->Ok_0.fees.manager_map() == Map::<u64, u128>::empty(),
                Err(e) => r == Err::<IndexFund, IndexFundError>(e),
            },
    {
        let mut book = ComponentBook::new();
        match book.refactor(components, asset) {
            Ok(()) => Ok(IndexFund {
                factory,
                adapter_registry,
                authorities,
                components: book,
                fees: TokenFeeLedger::new(),
                quote_token,
                is_public,
                initial_price,
                rebalance_threshold: DEFAULT_REBALANCE_THRESHOLD,
                last_rebalance_ts: 0,
                last_updated_ts: 0,
                total_mints: 0,
                total_redemptions: 0,
                trade_fee_tiers: None,
            }),
            Err(e) => Err(e),
        }
    }

    /// The trade fee tiers in force.
    pub fn get_trade_fee_tiers(&self) -> (r: Vec<VolumeFeeTier>)
        ensures
            r@ == self.tiers_spec(),
    {
        match &self.trade_fee_tiers {
            Some(t) => {
                let mut r: Vec<VolumeFeeTier> = Vec::new();
                let mut i: usize = 0;
                while i < t.len()
                    invariant
                        i <= t@.len(),
                        r@ == t@.subrange(0, i as int),
                    decreases t@.len() - i,
                {
                    r.push(t[i]);
                    i = i + 1;
                }
                proof { assert(t@.subrange(0, i as int) =~= t@); }
                r
            },
            None => default_trade_fee_tiers(),
        }
    }

    /// Replaces the tier schedule; exactly four tiers are accepted.
    pub fn set_trade_fee_tiers(&mut self, tiers: Vec<VolumeFeeTier>) -> (r: Result<(), IndexFundError>)
        ensures
            r is Ok <==> tiers@.len() == 4,
            r is Ok ==> final(self).tiers_spec() == tiers@,
            r is Err ==> r == Err::<(), IndexFundError>(IndexFundError::InvalidAmount) && final(self).tiers_spec() == old(self).tiers_spec(),
            final(self).components@ == old(self).components@,
    {
        if tiers.len() != 4 {
            return Err(IndexFundError::InvalidAmount);
        }
        self.trade_fee_tiers = Some(tiers);
        Ok(())
    }

    /// Checks and arithmetic of a mint of `amount` quote tokens by a caller
    /// with the given roles, whose volume this month is `monthly_volume`,
    /// against the share supply and NAV before the mint: the tier fees, the
    /// net amount invested and the shares to mint.
    pub fn quote_mint(&self, roles: CallerRoles, amount: u128, now: u64, monthly_volume: u128, total_shares: u128, nav: u128)
        -> (r: Result<MintQuote, IndexFundError>)
        ensures
            r == mint_quote_spec(roles, self.is_public, self.tiers_spec(), amount, now, monthly_volume, total_shares, nav),
            r is Ok && tier_fee_bps_spec(self.tiers_spec(), monthly_volume).0 + tier_fee_bps_spec(self.tiers_spec(), monthly_volume).1 <= 10_000
                ==> r->Ok_0.net_amount + r->Ok_0.protocol_fee + r->Ok_0.manager_fee == amount,
    {
        proof {
            lemma_mint_quote_conserves(roles, self.is_public, self.tiers_spec(), amount, now, monthly_volume, total_shares, nav);
        }
        if amount == 0 {
            return Err(IndexFundError::InvalidAmount);
        }
        match check_investor_access(roles, self.is_public) {
            Err(e) => return Err(e),
            Ok(()) => {},
        }
        let tiers = self.get_trade_fee_tiers();
        let (protocol_fee_bps, manager_fee_bps) = get_volume_tier_fee_bps(&tiers, monthly_volume);
        let (total_fee, protocol_fee, manager_fee) = calculate_fee_split(amount, protocol_fee_bps, manager_fee_bps);
        let net_amount = amount.saturating_sub(total_fee);
        let shares = match nav_amount_to_shares(net_amount, total_shares, nav) {
            Ok(s) => s,
            Err(e) => return Err(e),
        };
        Ok(MintQuote { protocol_fee, manager_fee, net_amount, shares, month_bucket: get_month_bucket(now) })
    }

    /// Books an accepted mint: accrues its fees in the quote token and
    /// credits the quote token's own component directly; returns the buys of
    /// the other components to execute. An empty registry is
    /// `ComponentNotFound` and changes nothing.
    pub fn begin_mint(&mut self, quote: MintQuote, to: u64) -> (r: Result<Vec<TradeParams>, IndexFundError>)
        requires
            old(self).wf(),
            deposit_fits(old(self).components@, quote.net_amount),
            forall|i: int| 0 <= i < old(self).components@.len() ==> (#[trigger] old(self).components@[i]).balance
                + weighted(quote.net_amount, old(self).components@[i].component.weight) <= u128::MAX,
        ensures
            final(self).wf(),
            old(self).components@.len() == 0 ==> r == Err::<Vec<TradeParams>, IndexFundError>(IndexFundError::ComponentNotFound)
                && final(self).components@ == old(self).components@
                && final(self).fees.protocol_map() == old(self).fees.protocol_map()
                && final(self).fees.manager_map() == old(self).fees.manager_map(),
            old(self).components@.len() > 0 ==> {
                &&& r is Ok
                &&& r->Ok_0@ == mint_swaps_spec(old(self).components@, old(self).quote_token, quote.net_amount, to)
                &&& final(self).components@.len() == old(self).components@.len()
                &&& forall|i: int| 0 <= i < old(self).components@.len() ==> #[trigger] final(self).components@[i]
                    == direct_credit(old(self).components@[i], old(self).quote_token, quote.net_amount)
                &&& final(self).fees.protocol_map() == accrue_spec(old(self).fees.protocol_map(), old(self).quote_token, quote.protocol_fee)
                &&& final(self).fees.manager_map() == accrue_spec(old(self).fees.manager_map(), old(self).quote_token, quote.manager_fee)
                &&& trade_amount_total(r->Ok_0@) + direct_credit_total(old(self).components@, old(self).quote_token, quote.net_amount)
                        <= quote.net_amount
            },
            final(self).quote_token == old(self).quote_token,
            final(self).total_mints == old(self).total_mints,
    {
        if self.components.len() == 0 {
            return Err(IndexFundError::ComponentNotFound);
        }
        let ghost s0 = self.components@;
        proof {
            lemma_mint_allocation_split(s0, self.quote_token, quote.net_amount, to);
            lemma_allocation_bounded(s0, quote.net_amount);
            let t = crate::components::allocation_total(s0, quote.net_amount);
            let a = quote.net_amount as int;
            assert(t * 10_000 <= a * 10_000);
            assert(t <= a) by (nonlinear_arith)
                requires t * 10_000 <= a * 10_000;
        }
        self.fees.accrue(self.quote_token, quote.protocol_fee, quote.manager_fee);
        let r = self.components.plan_weight_based_mint(self.quote_token, quote.net_amount, to);
        proof {
            lemma_weight_sum_same_weights(s0, self.components@);
        }
        r
    }

    /// Completes a mint once the swaps ran: credits the amounts bought and
    /// counts the minted shares.
    pub fn finish_mint(&mut self, quote: MintQuote, results: &Vec<u128>)
        requires
            old(self).wf(),
            deposit_fits(old(self).components@, quote.net_amount),
            old(self).total_mints + quote.shares <= u128::MAX,
            forall|i: int| 0 <= i < old(self).components@.len() && #[trigger] crate::components::takes_swap(old(self).components@[i], old(self).quote_token, quote.net_amount)
                && crate::components::swap_rank(old(self).components@, i, old(self).quote_token, quote.net_amount) < results@.len() ==>
                old(self).components@[i].balance + results@[crate::components::swap_rank(old(self).components@, i, old(self).quote_token, quote.net_amount)] <= u128::MAX,
        ensures
            final(self).wf(),
            final(self).total_mints == old(self).total_mints + quote.shares,
            final(self).components@.len() == old(self).components@.len(),
            forall|i: int| 0 <= i < old(self).components@.len() ==> #[trigger] final(self).components@[i]
                == crate::components::swap_credit(old(self).components@, i, old(self).quote_token, quote.net_amount, results@),
    {
        let q = self.quote_token;
        let ghost s0 = self.components@;
        self.components.apply_weight_based_mint_results(q, quote.net_amount, results);
        proof {
            assert forall|i: int| 0 <= i < s0.len() implies (#[trigger] s0[i]).component.weight == self.components@[i].component.weight by {
                assert(self.components@[i] == crate::components::swap_credit(s0, i, q, quote.net_amount, results@));
            }
            lemma_weight_sum_same_weights(s0, self.components@);
        }
        self.total_mints = self.total_mints + quote.shares;
    }

    /// Redeems `share_amount` shares of a caller holding `user_shares`:
    /// checks, then pays out the redeemed fraction (in bps of the supply) of
    /// every component net of the tier fees, books the fees and counts the
    /// redemption. On error nothing changes.
    pub fn redeem(&mut self, roles: CallerRoles, share_amount: u128, now: u64, monthly_volume: u128,
        user_shares: u128, total_shares: u128, nav: u128) -> (r: Result<RedeemOutcome, IndexFundError>)
        requires
            old(self).wf(),
            share_amount * 10_000 <= u128::MAX,
            old(self).total_redemptions + share_amount <= u128::MAX,
            share_amount <= total_shares ==> forall|i: int| 0 <= i < old(self).components@.len() ==>
                (#[trigger] old(self).components@[i]).balance * ((share_amount * 10_000) / (total_shares as int)) <= u128::MAX,
        ensures
            final(self).wf(),
            ({
                let (p, m) = tier_fee_bps_spec(old(self).tiers_spec(), monthly_volume);
                let ratio = ((share_amount * 10_000) / (total_shares as int)) as u128;
                if share_amount == 0 {
                    r matches Err(e) && e == IndexFundError::InvalidAmount
                } else if investor_access_spec(roles, old(self).is_public) is Err {
                    r matches Err(e) && e == investor_access_spec(roles, old(self).is_public)->Err_0
                } else if user_shares < share_amount || total_shares < share_amount {
                    r matches Err(e) && e == IndexFundError::InsufficientBalance
                } else {
                    &&& r is Ok
                    &&& r->Ok_0.nav_to_redeem == shares_to_nav_spec(share_amount, total_shares, nav).unwrap()
                    &&& r->Ok_0.month_bucket == now / THIRTY_DAY
                    &&& r->Ok_0.lines@ == redeem_lines_spec(old(self).components@, ratio, p, m)
                    &&& final(self).components@.len() == old(self).components@.len()
                    &&& forall|i: int| 0 <= i < old(self).components@.len() ==> #[trigger] final(self).components@[i]
                        == redeem_entry_spec(old(self).components@[i], ratio, p, m)
                    &&& final(self).fees.protocol_map() == book_lines_protocol(old(self).fees.protocol_map(), r->Ok_0.lines@)
                    &&& final(self).fees.manager_map() == book_lines_manager(old(self).fees.manager_map(), r->Ok_0.lines@)
                    &&& final(self).total_redemptions == old(self).total_redemptions + share_amount
                }
            }),
            r is Err ==> final(self).components@ == old(self).components@ && final(self).total_redemptions == old(self).total_redemptions
                && final(self).fees.protocol_map() == old(self).fees.protocol_map()
                && final(self).fees.manager_map() == old(self).fees.manager_map()
                && *final(self) == *old(self),
    {
        if share_amount == 0 {
            return Err(IndexFundError::InvalidAmount);
        }
        match check_investor_access(roles, self.is_public) {
            Err(e) => return Err(e),
            Ok(()) => {},
        }
        let month_bucket = get_month_bucket(now);
        let tiers = self.get_trade_fee_tiers();
        let (protocol_fee_bps, manager_fee_bps) = get_volume_tier_fee_bps(&tiers, monthly_volume);
        if user_shares < share_amount {
            return Err(IndexFundError::InsufficientBalance);
        }
        if total_shares < share_amount {
            return Err(IndexFundError::InsufficientBalance);
        }
        let nav_to_redeem = match shares_to_nav(share_amount, total_shares, nav) {
            Ok(v) => v,
            Err(e) => return Err(e),
        };
        let ratio = (share_amount * 10_000) / total_shares;
        proof {
            assert(ratio <= 10_000) by (nonlinear_arith)
                requires ratio == (share_amount * 10_000) / (total_shares as int), share_amount <= total_shares, total_shares > 0;
        }
        let ghost s0 = self.components@;
        let lines = self.components.redeem_components(ratio, protocol_fee_bps, manager_fee_bps);
        proof {
            assert forall|i: int| 0 <= i < s0.len() implies (#[trigger] s0[i]).component.weight == self.components@[i].component.weight by {
                assert(self.components@[i] == redeem_entry_spec(s0[i], ratio, protocol_fee_bps, manager_fee_bps));
            }
            lemma_weight_sum_same_weights(s0, self.components@);
        }
        let ghost p0 = self.fees.protocol_map();
        let ghost m0 = self.fees.manager_map();
        let ghost c1 = self.components@;
        let ghost tr0 = self.total_redemptions;
        let mut i: usize = 0;
        while i < lines.len()
            invariant
                i <= lines@.len(),
                self.wf(),
                self.components@ == c1,
                self.total_redemptions == tr0,
                self.fees.protocol_map() == book_lines_protocol(p0, lines@.subrange(0, i as int)),
                self.fees.manager_map() == book_lines_manager(m0, lines@.subrange(0, i as int)),
            decreases lines@.len() - i,
        {
            proof {
                assert(lines@.subrange(0, i + 1).drop_last() =~= lines@.subrange(0, i as int));
            }
            let line = lines[i];
            self.fees.accrue(line.token, line.protocol_fee, line.manager_fee);
            i = i + 1;
        }
        proof {
            assert(lines@.subrange(0, i as int) =~= lines@);
        }
        self.total_redemptions = self.total_redemptions + share_amount;
        Ok(RedeemOutcome { nav_to_redeem, lines, month_bucket })
    }

    /// Applies component updates for an authorised caller (admin or
    /// rebalance authority, not blacklisted) and records the update time.
    /// `asset` is the symbol given to added components. On error nothing
    /// changes.
    pub fn refactor(&mut self, roles: CallerRoles, updates: &Vec<ComponentUpdate>, asset: u64, now: u64) -> (r: Result<(), IndexFundError>)
        requires
            old(self).wf(),
            refactor_fits(old(self).components@, updates@, asset),
        ensures
            final(self).wf(),
            roles.is_blacklisted ==> r == Err::<(), IndexFundError>(IndexFundError::Blacklisted),
            !roles.is_blacklisted && !roles.is_admin && !roles.is_rebalance_authority ==> r == Err::<(), IndexFundError>(IndexFundError::UnauthorizedRefactor),
            !roles.is_blacklisted && (roles.is_admin || roles.is_rebalance_authority) ==>
                match refactor_spec(old(self).components@, updates@, asset) {
                    Ok(s) => r is Ok && final(self).components@ == s && final(self).last_updated_ts == now,
                    Err(e) => r == Err::<(), IndexFundError>(e),
                },
            r is Err ==> final(self).components@ == old(self).components@ && final(self).last_updated_ts == old(self).last_updated_ts,
            final(self).last_rebalance_ts == old(self).last_rebalance_ts,
    {
        if roles.is_blacklisted {
            return Err(IndexFundError::Blacklisted);
        }
        if !roles.is_admin && !roles.is_rebalance_authority {
            return Err(IndexFundError::UnauthorizedRefactor);
        }
        match self.components.refactor(updates, asset) {
            Ok(()) => {
                self.last_updated_ts = now;
                Ok(())
            },
            Err(e) => Err(e),
        }
    }

    /// Whether the rebalance cooldown has passed.
    pub fn can_rebalance(&self, now: u64) -> (r: bool)
        requires
            self.last_rebalance_ts + self.rebalance_threshold <= u64::MAX,
        ensures
            r == self.can_rebalance_spec(now),
    {
        now >= self.last_rebalance_ts + self.rebalance_threshold
    }

    /// Checks a rebalance by a caller at `now` and returns the trades that
    /// bring every component to its share of `target_nav` (the current NAV
    /// when none is given).
    pub fn plan_rebalance(&self, roles: CallerRoles, now: u64, target_nav: Option<i128>, current_nav: u128, to: u64)
        -> (r: Result<Vec<TradeParams>, IndexFundError>)
        requires
            self.last_rebalance_ts + self.rebalance_threshold <= u64::MAX,
            rebalance_fits(self.components@, match target_nav { Some(n) => n as u128, None => current_nav }),
        ensures
            rebalance_check_spec(self, roles, now) is Err ==> r == Err::<Vec<TradeParams>, IndexFundError>(rebalance_check_spec(self, roles, now)->Err_0),
            rebalance_check_spec(self, roles, now) is Ok ==> r is Ok && r->Ok_0@ == rebalance_swaps_spec(self.components@,
                match target_nav { Some(n) => n as u128, None => current_nav }, self.quote_token, to),
    {
        if roles.is_blacklisted {
            return Err(IndexFundError::Blacklisted);
        }
        if !self.is_public && !roles.is_admin && !roles.is_whitelisted && !roles.is_rebalance_authority {
            return Err(IndexFundError::NotWhitelisted);
        }
        if now < self.last_rebalance_ts + self.rebalance_threshold {
            return Err(IndexFundError::RebalanceTooSoon);
        }
        if self.is_public && !roles.is_admin {
            return Err(IndexFundError::PublicRebalanceRequiresProposal);
        }
        if !roles.is_admin && !roles.is_rebalance_authority {
            return Err(IndexFundError::UnauthorizedRebalance);
        }
        if !self.can_rebalance(now) {
            return Err(IndexFundError::RebalanceNotAllowed);
        }
        let nav = match target_nav {
            Some(n) => n as u128,
            None => current_nav,
        };
        Ok(self.components.generate_rebalance_swaps(nav, self.quote_token, to))
    }

    /// Rebalances the fund at `now`: the checks of `plan_rebalance`, then
    /// both timestamps are stamped with `now` and the trades towards the
    /// target NAV are returned for execution. A refused rebalance changes
    /// nothing.
    pub fn rebalance(&mut self, roles: CallerRoles, now: u64, target_nav: Option<i128>, current_nav: u128, to: u64)
        -> (r: Result<Vec<TradeParams>, IndexFundError>)
        requires
            old(self).last_rebalance_ts + old(self).rebalance_threshold <= u64::MAX,
            rebalance_fits(old(self).components@, match target_nav { Some(n) => n as u128, None => current_nav }),
        ensures
            rebalance_check_spec(old(self), roles, now) is Err ==> r == Err::<Vec<TradeParams>, IndexFundError>(rebalance_check_spec(old(self), roles, now)->Err_0)
                && final(self).last_rebalance_ts == old(self).last_rebalance_ts
                && final(self).last_updated_ts == old(self).last_updated_ts,
            rebalance_check_spec(old(self), roles, now) is Ok ==> r is Ok && r->Ok_0@ == rebalance_swaps_spec(old(self).components@,
                match target_nav { Some(n) => n as u128, None => current_nav }, old(self).quote_token, to)
                && final(self).last_rebalance_ts == now && final(self).last_updated_ts == now,
            final(self).components@ == old(self).components@,
            final(self).rebalance_threshold == old(self).rebalance_threshold,
            final(self).is_public == old(self).is_public,
    {
        match self.plan_rebalance(roles, now, target_nav, current_nav, to) {
            Ok(swaps) => {
                self.complete_rebalance(now);
                Ok(swaps)
            },
            Err(e) => Err(e),
        }
    }

    /// Records a completed rebalance at `now`.
    pub fn complete_rebalance(&mut self, now: u64)
        ensures
            final(self).last_rebalance_ts == now,
            final(self).last_updated_ts == now,
            final(self).components@ == old(self).components@,
            final(self).rebalance_threshold == old(self).rebalance_threshold,
            final(self).is_public == old(self).is_public,
    {
        self.last_rebalance_ts = now;
        self.last_updated_ts = now;
    }

    /// Whether a caller may rebalance now: the cooldown must have passed; a
    /// public index admits its admin, a private one also its rebalance
    /// authorities.
    pub fn can_address_rebalance(&self, roles: CallerRoles, now: u64) -> (r: bool)
        requires
            self.last_rebalance_ts + self.rebalance_threshold <= u64::MAX,
        ensures
            r == (self.can_rebalance_spec(now) && (roles.is_admin || (!self.is_public && roles.is_rebalance_authority))),
    {
        if now < self.last_rebalance_ts + self.rebalance_threshold {
            return false;
        }
        if self.is_public {
            roles.is_admin
        } else {
            roles.is_admin || roles.is_rebalance_authority
        }
    }

    /// Rebalance timing at `now`.
    pub fn get_rebalance_status(&self, now: u64) -> (r: RebalanceStatus)
        requires
            self.last_rebalance_ts + self.rebalance_threshold <= u64::MAX,
        ensures
            r.can_rebalance == self.can_rebalance_spec(now),
            r.time_until_next_rebalance == (if self.can_rebalance_spec(now) { 0 } else {
                (self.last_rebalance_ts + self.rebalance_threshold - now) as u64 }),
            r.last_rebalance_ts == self.last_rebalance_ts,
            r.rebalance_threshold == self.rebalance_threshold,
            r.is_public == self.is_public,
            r.rebalance_authorities@ == (if self.is_public { Seq::<u64>::empty() } else { self.authorities.rebalance_authorities@ }),
    {
        let can_rebalance = self.can_rebalance(now);
        let time_until_next = if can_rebalance { 0 } else { self.last_rebalance_ts + self.rebalance_threshold - now };
        let rebalance_authorities = if self.is_public { Vec::new() } else { self.get_rebalance_authorities() };
        RebalanceStatus {
            can_rebalance,
            time_until_next_rebalance: time_until_next,
            last_rebalance_ts: self.last_rebalance_ts,
            rebalance_threshold: self.rebalance_threshold,
            is_public: self.is_public,
            rebalance_authorities,
        }
    }

    /// The rebalance authorities of the fund.
    pub fn get_rebalance_authorities(&self) -> (r: Vec<u64>)
        ensures
            r@ == self.authorities.rebalance_authorities@,
    {
        let v = &self.authorities.rebalance_authorities;
        let mut r: Vec<u64> = Vec::new();
        let mut i: usize = 0;
        while i < v.len()
            invariant
                i <= v@.len(),
                r@ == v@.subrange(0, i as int),
            decreases v@.len() - i,
        {
            r.push(v[i]);
            proof {
                assert(v@.subrange(0, i + 1) =~= v@.subrange(0, i as int).push(v@[i as int]));
            }
            i = i + 1;
        }
        proof {
            assert(v@.subrange(0, i as int) =~= v@);
        }
        r
    }

    /// Grants (`status` true) or revokes a rebalance authority: a grant adds
    /// the address at the end unless it is already listed, a revocation
    /// removes every occurrence. Nothing else changes.
    pub fn set_rebalance_authority(&mut self, authority: u64, status: bool)
        ensures
            final(self).authorities.rebalance_authorities@ == (if status {
                if old(self).authorities.rebalance_authorities@.contains(authority) {
                    old(self).authorities.rebalance_authorities@
                } else {
                    old(self).authorities.rebalance_authorities@.push(authority)
                }
            } else {
                old(self).authorities.rebalance_authorities@.filter(crate::privacy::other_than(authority))
            }),
            final(self).authorities.admin == old(self).authorities.admin,
            final(self).components@ == old(self).components@,
            final(self).is_public == old(self).is_public,
            final(self).factory == old(self).factory,
            final(self).adapter_registry == old(self).adapter_registry,
    {
        if status {
            let mut found = false;
            let mut i: usize = 0;
            while i < self.authorities.rebalance_authorities.len()
                invariant
                    i <= self.authorities.rebalance_authorities@.len(),
                    found <==> exists|j: int| 0 <= j < i && self.authorities.rebalance_authorities@[j] == authority,
                decreases self.authorities.rebalance_authorities@.len() - i,
            {
                if self.authorities.rebalance_authorities[i] == authority {
                    found = true;
                }
                i = i + 1;
            }
            proof {
                let v = self.authorities.rebalance_authorities@;
                if found {
                    let j = choose|j: int| 0 <= j < i && v[j] == authority;
                    assert(v.contains(authority));
                } else {
                    assert(!v.contains(authority));
                }
            }
            if !found {
                self.authorities.rebalance_authorities.push(authority);
            }
        } else {
            let kept = crate::privacy::without(&self.authorities.rebalance_authorities, authority);
            self.authorities.rebalance_authorities = kept;
        }
    }

    /// Points the fund at another factory.
    pub fn set_factory(&mut self, factory: u64)
        ensures
            final(self).factory == factory,
            final(self).adapter_registry == old(self).adapter_registry,
            final(self).components@ == old(self).components@,
    {
        self.factory = factory;
    }

    /// Points the fund at another adapter registry.
    pub fn set_adapter_registry(&mut self, registry: u64)
        ensures
            final(self).adapter_registry == registry,
            final(self).factory == old(self).factory,
            final(self).components@ == old(self).components@,
    {
        self.adapter_registry = registry;
    }

    /// Whether `caller` is the owner (admin) or the operations admin.
    pub fn is_operations_admin_or_owner(&self, caller: u64) -> (r: bool)
        ensures
            r == (caller == self.authorities.admin || caller == self.authorities.operations_admin),
    {
        caller == self.authorities.admin || caller == self.authorities.operations_admin
    }

    /// Whether `caller` is the owner (admin) or the fee admin.
    pub fn is_fee_admin_or_owner(&self, caller: u64) -> (r: bool)
        ensures
            r == (caller == self.authorities.admin || caller == self.authorities.fee_admin),
    {
        caller == self.authorities.admin || caller == self.authorities.fee_admin
    }

    /// `set_rebalance_authority` on behalf of `caller`, who must be the owner
    /// or the operations admin; anyone else is refused and nothing changes.
    pub fn set_rebalance_authority_as(&mut self, caller: u64, authority: u64, status: bool) -> (r: Result<(), AccessError>)
        ensures
            r is Ok <==> (caller == old(self).authorities.admin || caller == old(self).authorities.operations_admin),
            r is Err ==> r == Err::<(), AccessError>(AccessError::Unauthorized) && *final(self) == *old(self),
            r is Ok ==> final(self).authorities.rebalance_authorities@ == (if status {
                if old(self).authorities.rebalance_authorities@.contains(authority) {
                    old(self).authorities.rebalance_authorities@
                } else {
                    old(self).authorities.rebalance_authorities@.push(authority)
                }
            } else {
                old(self).authorities.rebalance_authorities@.filter(crate::privacy::other_than(authority))
            }),
            final(self).authorities.admin == old(self).authorities.admin,
            final(self).components@ == old(self).components@,
    {
        if !self.is_operations_admin_or_owner(caller) {
            return Err(AccessError::Unauthorized);
        }
        self.set_rebalance_authority(authority, status);
        Ok(())
    }

    /// `set_factory` on behalf of `caller`, who must be the owner or the
    /// operations admin; anyone else is refused and nothing changes.
    pub fn set_factory_as(&mut self, caller: u64, factory: u64) -> (r: Result<(), AccessError>)
        ensures
            r is Ok <==> (caller == old(self).authorities.admin || caller == old(self).authorities.operations_admin),
            r is Err ==> r == Err::<(), AccessError>(AccessError::Unauthorized) && *final(self) == *old(self),
            r is Ok ==> final(self).factory == factory && final(self).adapter_registry == old(self).adapter_registry
                && final(self).components@ == old(self).components@,
    {
        if !self.is_operations_admin_or_owner(caller) {
            return Err(AccessError::Unauthorized);
        }
        self.set_factory(factory);
        Ok(())
    }

    /// `set_adapter_registry` on behalf of `caller`, who must be the owner
    /// or the operations admin; anyone else is refused and nothing changes.
    pub fn set_adapter_registry_as(&mut self, caller: u64, registry: u64) -> (r: Result<(), AccessError>)
        ensures
            r is Ok <==> (caller == old(self).authorities.admin || caller == old(self).authorities.operations_admin),
            r is Err ==> r == Err::<(), AccessError>(AccessError::Unauthorized) && *final(self) == *old(self),
            r is Ok ==> final(self).adapter_registry == registry && final(self).factory == old(self).factory
                && final(self).components@ == old(self).components@,
    {
        if !self.is_operations_admin_or_owner(caller) {
            return Err(AccessError::Unauthorized);
        }
        self.set_adapter_registry(registry);
        Ok(())
    }

    /// Sets the rebalance cooldown on behalf of `caller`, who must be the
    /// owner or the operations admin; anyone else is refused and nothing
    /// changes.
    pub fn set_rebalance_threshold_as(&mut self, caller: u64, threshold: u64) -> (r: Result<(), AccessError>)
        ensures
            r is Ok <==> (caller == old(self).authorities.admin || caller == old(self).authorities.operations_admin),
            r is Err ==> r == Err::<(), AccessError>(AccessError::Unauthorized) && *final(self) == *old(self),
            r is Ok ==> final(self).rebalance_threshold == threshold && final(self).components@ == old(self).components@
                && final(self).last_rebalance_ts == old(self).last_rebalance_ts,
    {
        if !self.is_operations_admin_or_owner(caller) {
            return Err(AccessError::Unauthorized);
        }
        self.rebalance_threshold = threshold;
        Ok(())
    }

    /// `set_trade_fee_tiers` on behalf of `caller`, who must be the owner or
    /// the fee admin: anyone else is refused (the outer error); an
    /// authorised call gives `set_trade_fee_tiers`'s own result. A refusal
    /// changes nothing.
    pub fn set_trade_fee_tiers_as(&mut self, caller: u64, tiers: Vec<VolumeFeeTier>) -> (r: Result<Result<(), IndexFundError>, AccessError>)
        ensures
            r is Ok <==> (caller == old(self).authorities.admin || caller == old(self).authorities.fee_admin),
            r is Err ==> r == Err::<Result<(), IndexFundError>, AccessError>(AccessError::Unauthorized) && *final(self) == *old(self),
            r is Ok ==> {
                &&& (r->Ok_0 is Ok <==> tiers@.len() == 4)
                &&& (r->Ok_0 is Ok ==> final(self).tiers_spec() == tiers@)
                &&& (r->Ok_0 is Err ==> r->Ok_0 == Err::<(), IndexFundError>(IndexFundError::InvalidAmount)
                        && final(self).tiers_spec() == old(self).tiers_spec())
            },
            final(self).components@ == old(self).components@,
    {
        if !self.is_fee_admin_or_owner(caller) {
            return Err(AccessError::Unauthorized);
        }
        Ok(self.set_trade_fee_tiers(tiers))
    }

    /// Roles of `address` in this fund: admin when it holds the admin role,
    /// rebalance authority when it is listed as one; list memberships are
    /// given.
    pub fn caller_roles(&self, address: u64, is_whitelisted: bool, is_blacklisted: bool) -> (r: CallerRoles)
        ensures
            r == (CallerRoles {
                is_admin: address == self.authorities.admin,
                is_whitelisted,
                is_blacklisted,
                is_rebalance_authority: self.authorities.rebalance_authorities@.contains(address),
            }),
    {
        let mut is_authority = false;
        let v = &self.authorities.rebalance_authorities;
        let mut i: usize = 0;
        while i < v.len()
            invariant
                i <= v@.len(),
                is_authority <==> exists|j: int| 0 <= j < i && v@[j] == address,
            decreases v@.len() - i,
        {
            if v[i] == address {
                is_authority = true;
            }
            i = i + 1;
        }
        proof {
            if is_authority {
                let j = choose|j: int| 0 <= j < i && v@[j] == address;
                assert(v@.contains(address));
            }
        }
        CallerRoles {
            is_admin: address == self.authorities.admin,
            is_whitelisted,
            is_blacklisted,
            is_rebalance_authority: is_authority,
        }
    }

    /// Financial metrics for a share supply and a NAV.
    pub fn get_index_metrics(&self, total_shares: u128, current_nav: u128) -> (r: IndexFundMetrics)
        ensures
            r == (IndexFundMetrics {
                total_shares,
                total_mints: self.total_mints,
                total_redemptions: self.total_redemptions,
                current_nav,
                share_price: crate::shares::share_price_spec(total_shares, current_nav, self.initial_price),
            }),
    {
        IndexFundMetrics {
            total_shares,
            total_mints: self.total_mints,
            total_redemptions: self.total_redemptions,
            current_nav,
            share_price: crate::shares::get_current_share_price(total_shares, current_nav, self.initial_price),
        }
    }

    /// Operational status at `now`.
    pub fn get_index_status(&self, now: u64) -> (r: IndexFundStatus)
        requires
            self.last_rebalance_ts + self.rebalance_threshold <= u64::MAX,
        ensures
            r == (IndexFundStatus {
                is_public: self.is_public,
                can_rebalance: self.can_rebalance_spec(now),
                last_rebalance_ts: self.last_rebalance_ts,
                rebalance_threshold: self.rebalance_threshold,
            }),
    {
        IndexFundStatus {
            is_public: self.is_public,
            can_rebalance: self.can_rebalance(now),
            last_rebalance_ts: self.last_rebalance_ts,
            rebalance_threshold: self.rebalance_threshold,
        }
    }
}

/// The checks of a rebalance, in the order the contract makes them.
pub open spec fn rebalance_check_spec(f: &IndexFund, roles: CallerRoles, now: u64) -> Result<(), IndexFundError> {
    if roles.is_blacklisted {
        Err(IndexFundError::Blacklisted)
    } else if !f.is_public && !roles.is_admin && !roles.is_whitelisted && !roles.is_rebalance_authority {
        Err(IndexFundError::NotWhitelisted)
    } else if !f.can_rebalance_spec(now) {
        Err(IndexFundError::RebalanceTooSoon)
    } else if f.is_public && !roles.is_admin {
        Err(IndexFundError::PublicRebalanceRequiresProposal)
    } else if !roles.is_admin && !roles.is_rebalance_authority {
        Err(IndexFundError::UnauthorizedRebalance)
    } else {
        Ok(())
    }
}

/// An accepted mint quote conserves the deposit: when the tier's protocol
/// and manager rates total at most 100%, the net amount invested and the two
/// fees add up to exactly the amount deposited.
pub proof fn lemma_mint_quote_conserves(roles: CallerRoles, is_public: bool, tiers: Seq<VolumeFeeTier>, amount: u128,
    now: u64, volume: u128, total_shares: u128, nav: u128)
    ensures
        mint_quote_spec(roles, is_public, tiers, amount, now, volume, total_shares, nav) is Ok
            && tier_fee_bps_spec(tiers, volume).0 + tier_fee_bps_spec(tiers, volume).1 <= 10_000 ==> {
            let q = mint_quote_spec(roles, is_public, tiers, amount, now, volume, total_shares, nav)->Ok_0;
            q.net_amount + q.protocol_fee + q.manager_fee == amount
        },
{
    let (p, m) = tier_fee_bps_spec(tiers, volume);
    crate::fee::lemma_fee_split_parts(amount, p, m);
}

/// A rebalance stamped at `now` starts a new cooldown: before
/// `now + rebalance_threshold` the fund cannot be rebalanced and every
/// rebalance request is refused.
pub proof fn lemma_fund_rebalance_starts_cooldown(f: &IndexFund, roles: CallerRoles, now: u64, later: u64)
    requires
        f.last_rebalance_ts == now,
        later < now + f.rebalance_threshold,
    ensures
        !f.can_rebalance_spec(later),
        rebalance_check_spec(f, roles, later) is Err,
{
}

/// Fees accrued for a token are claimed in full: after accruing `fee`, a
/// claim returns the earlier amount plus `fee` (saturating), and a claim
/// leaves nothing to claim again.
pub proof fn lemma_claim_after_accrue(m: Map<u64, u128>, token: u64, fee: u128)
    ensures
        amount_in(accrue_spec(m, token, fee), token) == sat_add(amount_in(m, token), fee),
        amount_in(m.insert(token, 0), token) == 0,
{
}

} // verus!

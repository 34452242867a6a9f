//! The index contract: an index token over weighted components, with kill
//! switches, investor access checks, refactors and rebalances of the
//! component set under weight-sum rules, rebalance planning, weight-based
//! valuation and fee distribution.
//!
//! Transfers, swaps and the share token are outside the index; its
//! operations take what they return as arguments and return the swaps to
//! execute.

use vstd::prelude::*;
use crate::errors::IndexError;
use crate::math::{sat_mul, sat_mul_spec, sat_add_spec};
use crate::components::target_balance;
use crate::shares::{vault_amount_to_shares, vault_amount_to_shares_spec};

verus! {

/// Swap venue of the swap utility.
#[derive(Debug, Clone, Copy, PartialEq, Eq, Structural)]
pub enum DexProvider {
    Normal,
    Soroswap,
}

impl DexProvider {
    /// The venue used when none is named.
    pub fn default_provider() -> (r: DexProvider)
        ensures
            r == DexProvider::Normal,
    {
        DexProvider::Normal
    }
}

/// Direction of a swap relative to the component.
#[derive(Debug, Clone, Copy, PartialEq, Eq, Structural)]
pub enum SwapDirection {
    Buy,
    Sell,
}

impl SwapDirection {
    /// The direction used when none is named.
    pub fn default_direction() -> (r: SwapDirection)
        ensures
            r == SwapDirection::Buy,
    {
        SwapDirection::Buy
    }
}

/// Answer of the swap utility for one swap.
#[derive(Debug, Clone, Copy, PartialEq, Eq, Structural)]
pub struct SwapResult {
    pub provider_used: DexProvider,
    pub amount_in: u128,
    pub amount_out: u128,
    pub success: bool,
}

/// A swap to execute: sell `amount_in` of `token_in` for at least
/// `amount_out_min` of `token_out`, delivered to `to`.
#[derive(Debug, Clone, Copy, PartialEq, Eq, Structural)]
pub struct SwapParams {
    pub token_in: u64,
    pub token_out: u64,
    pub amount_in: i128,
    pub amount_out_min: i128,
    pub to: u64,
}

/// Arguments of one call to the swap utility.
#[derive(Debug, Clone, Copy, PartialEq, Eq, Structural)]
pub struct SwapUtilityParams {
    /// The venue; `None` lets the swap utility choose.
    pub provider: Option<DexProvider>,
    pub token_in: u64,
    pub token_out: u64,
    pub amount_in: i128,
    pub amount_out_min: i128,
    pub to: u64,
    /// Asset symbol of the component the swap concerns.
    pub asset: u64,
    pub direction: SwapDirection,
}

/// A component of the index with the balance the index tracks for it.
#[derive(Debug, Clone, Copy, PartialEq, Eq, Structural)]
pub struct IndexComponent {
    pub token: u64,
    pub asset: u64,
    /// Target weight in basis points.
    pub weight: u128,
    /// Tracked balance; `None` when never recorded.
    pub balance: Option<u128>,
}

/// What a component update does.
#[derive(Debug, Clone, Copy, PartialEq, Eq, Structural)]
pub enum ComponentAction {
    Add,
    Remove,
    UpdateWeight,
}

/// One change of the component set.
#[derive(Debug, Clone, Copy, PartialEq, Eq, Structural)]
pub struct ComponentUpdate {
    pub token: u64,
    pub new_weight: u128,
    pub action: ComponentAction,
}

/// Parameters of a rebalance: an optional NAV to rebalance towards and the
/// component updates to apply first.
#[derive(Debug, Clone)]
pub struct RebalanceParams {
    pub target_nav: Option<i128>,
    pub component_updates: Vec<ComponentUpdate>,
}

/// Parameters of a refactor: the component updates to apply.
#[derive(Debug, Clone)]
pub struct RefactorParams {
    pub component_updates: Vec<ComponentUpdate>,
}

/// Comprehensive information on the index.
#[derive(Debug, Clone, Copy, PartialEq, Eq, Structural)]
pub struct IndexInfo {
    pub address: u64,
    pub token_address: u64,
    pub total_shares: u128,
    pub base_nav: u128,
    pub initial_price: u128,
    pub is_public: bool,
    pub manager_fee_fraction: u32,
    pub manager_address: Option<u64>,
    pub protocol_fee_recipient: Option<u64>,
    pub accumulated_manager_fees: u128,
    pub accumulated_protocol_fees: u128,
    pub last_rebalance_ts: u64,
    pub last_updated_ts: u64,
    pub total_mints: u128,
    pub total_redemptions: u128,
    pub total_fees: u128,
    pub is_killed_mint: bool,
    pub is_killed_redeem: bool,
    pub is_killed_rebalance: bool,
}

/// Roles and list memberships of a caller of the index.
#[derive(Debug, Clone, Copy, PartialEq, Eq, Structural)]
pub struct IndexCaller {
    pub address: u64,
    pub is_admin: bool,
    pub is_whitelisted: bool,
    pub is_blacklisted: bool,
}

/// Financial metrics of the index.
#[derive(Debug, Clone, Copy, PartialEq, Eq, Structural)]
pub struct IndexMetrics {
    pub total_shares: u128,
    pub total_mints: u128,
    pub total_redemptions: u128,
    pub total_fees: u128,
    pub accumulated_manager_fees: u128,
    pub accumulated_protocol_fees: u128,
    pub current_nav: u128,
    pub share_price: u128,
}

/// Operational status of the index.
#[derive(Debug, Clone, Copy, PartialEq, Eq, Structural)]
pub struct IndexStatus {
    pub is_killed_mint: bool,
    pub is_killed_redeem: bool,
    pub is_killed_rebalance: bool,
    pub is_public: bool,
    pub can_rebalance: bool,
    pub last_rebalance_ts: u64,
    pub rebalance_threshold: u64,
}

/// Rebalance timing and the authorities of a private index.
#[derive(Debug, Clone)]
pub struct RebalanceStatus {
    pub can_rebalance: bool,
    pub time_until_next_rebalance: u64,
    pub last_rebalance_ts: u64,
    pub rebalance_threshold: u64,
    pub is_public: bool,
    pub authorized_rebalancers: Vec<u64>,
}

/// Live allocation of one component.
#[derive(Debug, Clone, Copy, PartialEq, Eq, Structural)]
pub struct ComponentAllocation {
    pub token: u64,
    pub asset: u64,
    pub weight: u128,
    pub current_balance: u128,
    pub target_balance: u128,
    /// Share of the NAV held, in basis points.
    pub percentage_of_nav: u128,
}

/// Rebalance cooldown used until one is configured (30 days).
pub const INDEX_REBALANCE_THRESHOLD: u64 = 2_592_000;

/// Base price of a component (1.0 at 6 decimals).
pub const BASE_COMPONENT_PRICE: u128 = 1_000_000;

/// Smallest weight multiplier used for pricing (10%).
pub const MIN_PRICE_WEIGHT: u128 = 1_000;

/// State of an index contract.
#[derive(Debug)]
pub struct Index {
    /// The index contract's own address, which receives swap proceeds.
    pub address: u64,
    pub share_token: u64,
    pub is_public: bool,
    pub is_killed_mint: bool,
    pub is_killed_redeem: bool,
    pub is_killed_rebalance: bool,
    pub base_nav: u128,
    pub initial_price: u128,
    pub last_rebalance_ts: u64,
    pub last_updated_ts: u64,
    pub rebalance_threshold: u64,
    pub total_mints: u128,
    pub total_redemptions: u128,
    pub manager_fee_fraction: u32,
    /// Receiver of manager fees; `None` when unset.
    pub manager: Option<u64>,
    /// Receiver of protocol fees; `None` when unset.
    pub protocol_fee_recipient: Option<u64>,
    pub fee_totals: crate::accrual::FeeTotals,
    /// Components in registry order (tokens distinct, see `wf`).
    pub components: Vec<IndexComponent>,
    /// Rebalance authorities in the order they were granted.
    pub authorities: Vec<u64>,
}

pub open spec fn index_tokens_distinct(s: Seq<IndexComponent>) -> bool {
    forall|i: int, j: int| 0 <= i < s.len() && 0 <= j < s.len() && i != j ==> s[i].token != s[j].token
}

pub open spec fn has_token(s: Seq<IndexComponent>, token: u64) -> bool {
    exists|i: int| 0 <= i < s.len() && s[i].token == token
}

/// Position of `token` (meaningful when present).
pub open spec fn position_of(s: Seq<IndexComponent>, token: u64) -> int {
    choose|i: int| 0 <= i < s.len() && s[i].token == token
}

/// The component a swap concerns: what it sells when it pays out in the
/// base token (the index's share token), what it buys otherwise.
pub open spec fn swap_component_spec(p: SwapParams, base: u64) -> u64 {
    if p.token_out == base { p.token_in } else { p.token_out }
}

/// The swap-utility call for a swap: its tokens, amounts and recipient, the
/// asset of the component it concerns, no venue and the buy direction;
/// `None` when that component is not part of the index.
pub open spec fn swap_call_spec(s: Seq<IndexComponent>, p: SwapParams, base: u64) -> Option<SwapUtilityParams> {
    let t = swap_component_spec(p, base);
    if has_token(s, t) {
        Some(SwapUtilityParams {
            provider: None,
            token_in: p.token_in,
            token_out: p.token_out,
            amount_in: p.amount_in,
            amount_out_min: p.amount_out_min,
            to: p.to,
            asset: s[position_of(s, t)].asset,
            direction: SwapDirection::Buy,
        })
    } else {
        None
    }
}

/// Whether every swap concerns a component of the index.
pub open spec fn swaps_have_components(s: Seq<IndexComponent>, swaps: Seq<SwapParams>, base: u64) -> bool {
    forall|i: int| 0 <= i < swaps.len() ==> (#[trigger] swap_call_spec(s, swaps[i], base)) is Some
}

/// Effect of one update. Adding sets the weight and asset of the token,
/// registering it when new; removing and re-weighting need the token.
pub open spec fn index_update_spec(s: Seq<IndexComponent>, u: ComponentUpdate, asset: u64) -> Result<Seq<IndexComponent>, IndexError> {
    match u.action {
        ComponentAction::Add => {
            if has_token(s, u.token) {
                let i = position_of(s, u.token);
                Ok(s.update(i, IndexComponent { asset, weight: u.new_weight, ..s[i] }))
            } else {
                Ok(s.push(IndexComponent { token: u.token, asset, weight: u.new_weight, balance: None }))
            }
        },
        ComponentAction::Remove => {
            if has_token(s, u.token) {
                Ok(s.remove(position_of(s, u.token)))
            } else {
                Err(IndexError::ComponentNotFound)
            }
        },
        ComponentAction::UpdateWeight => {
            if has_token(s, u.token) {
                let i = position_of(s, u.token);
                Ok(s.update(i, IndexComponent { weight: u.new_weight, ..s[i] }))
            } else {
                Err(IndexError::ComponentNotFound)
            }
        },
    }
}

/// Effect of a sequence of updates, stopping at the first error.
pub open spec fn index_updates_spec(s: Seq<IndexComponent>, us: Seq<ComponentUpdate>, asset: u64) -> Result<Seq<IndexComponent>, IndexError>
    decreases us.len(),
{
    if us.len() == 0 {
        Ok(s)
    } else {
        match index_updates_spec(s, us.drop_last(), asset) {
            Ok(s1) => index_update_spec(s1, us.last(), asset),
            Err(e) => Err(e),
        }
    }
}

pub open spec fn sets_weight(u: ComponentUpdate) -> bool {
    u.action is Add || u.action is UpdateWeight
}

/// Sum of the new weights of the updates that set a weight.
pub open spec fn update_weight_total(us: Seq<ComponentUpdate>) -> int
    decreases us.len(),
{
    if us.len() == 0 {
        0
    } else {
        update_weight_total(us.drop_last()) + if sets_weight(us.last()) { us.last().new_weight as int } else { 0int }
    }
}

pub open spec fn has_weight_update(us: Seq<ComponentUpdate>) -> bool {
    exists|i: int| 0 <= i < us.len() && sets_weight(#[trigger] us[i])
}

/// Effect of the component updates of a rebalance: all updates, then the
/// weights set by the batch must total 10_000 when it sets any.
pub open spec fn apply_updates_spec(s: Seq<IndexComponent>, us: Seq<ComponentUpdate>, asset: u64) -> Result<Seq<IndexComponent>, IndexError> {
    match index_updates_spec(s, us, asset) {
        Err(e) => Err(e),
        Ok(s1) => if has_weight_update(us) && update_weight_total(us) != 10_000 {
            Err(IndexError::InvalidWeightSum)
        } else {
            Ok(s1)
        },
    }
}

/// Effect of one update of a refactor: as in a rebalance, except that
/// re-weighting a token that is not a component leaves the registry as it is.
pub open spec fn refactor_update_spec(s: Seq<IndexComponent>, u: ComponentUpdate, asset: u64) -> Result<Seq<IndexComponent>, IndexError> {
    if u.action is UpdateWeight && !has_token(s, u.token) {
        Ok(s)
    } else {
        index_update_spec(s, u, asset)
    }
}

/// Effect of the updates of a refactor in order, stopping at the first error.
pub open spec fn refactor_updates_spec(s: Seq<IndexComponent>, us: Seq<ComponentUpdate>, asset: u64) -> Result<Seq<IndexComponent>, IndexError>
    decreases us.len(),
{
    if us.len() == 0 {
        Ok(s)
    } else {
        match refactor_updates_spec(s, us.drop_last(), asset) {
            Ok(s1) => refactor_update_spec(s1, us.last(), asset),
            Err(e) => Err(e),
        }
    }
}

/// Sum of the weights of the components.
pub open spec fn component_weight_total(s: Seq<IndexComponent>) -> int
    decreases s.len(),
{
    if s.len() == 0 { 0 } else { component_weight_total(s.drop_last()) + s.last().weight }
}

/// Registry after a refactor: all updates applied, and then the weights of
/// the components must total 10_000 unless none is left.
pub open spec fn refactor_result_spec(s: Seq<IndexComponent>, us: Seq<ComponentUpdate>, asset: u64) -> Result<Seq<IndexComponent>, IndexError> {
    match refactor_updates_spec(s, us, asset) {
        Err(e) => Err(e),
        Ok(s1) => if s1.len() > 0 && component_weight_total(s1) != 10_000 {
            Err(IndexError::InvalidWeightSum)
        } else {
            Ok(s1)
        },
    }
}

/// Weight multiplier used for pricing: the weight, at least 10%.
pub open spec fn price_weight(w: u128) -> u128 {
    if w > 0 { if w > MIN_PRICE_WEIGHT { w } else { MIN_PRICE_WEIGHT } } else { MIN_PRICE_WEIGHT }
}

/// Price of a component derived from its weight.
pub open spec fn weight_price_spec(w: u128) -> u128 {
    sat_mul_spec(BASE_COMPONENT_PRICE, price_weight(w)) / 10_000
}

/// Value of a component's tracked balance at its weight price (saturating).
pub open spec fn component_value_spec(c: IndexComponent) -> u128 {
    match c.balance {
        Some(b) => if b > 0 { sat_mul_spec(b, weight_price_spec(c.weight)) } else { 0 },
        None => 0,
    }
}

/// Total value of all components (saturating sum, registry order).
pub open spec fn total_value_spec(s: Seq<IndexComponent>) -> u128
    decreases s.len(),
{
    if s.len() == 0 { 0 } else { sat_add_spec(total_value_spec(s.drop_last()), component_value_spec(s.last())) }
}

pub open spec fn balance_or_zero(c: IndexComponent) -> u128 {
    match c.balance { Some(b) => b, None => 0 }
}

impl Index {
    /// The components in registry order.
    pub open spec fn components_view(&self) -> Seq<IndexComponent> {
        self.components@
    }

    /// Rebalance authorities in the order they were granted.
    pub open spec fn authorities_view(&self) -> Seq<u64> {
        self.authorities@
    }

    /// Component tokens and authorities are distinct.
    pub open spec fn wf(&self) -> bool {
        index_tokens_distinct(self.components@) && self.authorities@.no_duplicates()
    }

    fn find(&self, token: u64) -> (r: Option<usize>)
        requires
            index_tokens_distinct(self.components@),
        ensures
            match r {
                Some(i) => i < self.components@.len() && self.components@[i as int].token == token
                    && has_token(self.components@, token) && position_of(self.components@, token) == i,
                None => !has_token(self.components@, token),
            },
    {
        let mut i: usize = 0;
        while i < self.components.len()
            invariant
                0 <= i <= self.components@.len(),
                index_tokens_distinct(self.components@),
                forall|j: int| 0 <= j < i ==> self.components@[j].token != token,
            decreases self.components@.len() - i,
        {
            if self.components[i].token == token {
                proof {
                    let s = self.components@;
                    assert(s[i as int].token == token);
                    assert(has_token(s, token));
                    let p = position_of(s, token);
                    assert(0 <= p < s.len() && s[p].token == token);
                    if p != i {
                        assert(s[p].token != s[i as int].token);
                    }
                    assert(p == i);
                }
                return Some(i);
            }
            i = i + 1;
        }
        None
    }

    /// The component of `token`, if it is part of the index.
    pub fn get_component_safe(&self, token: u64) -> (r: Option<IndexComponent>)
        requires
            self.wf(),
        ensures
            r == (if has_token(self.components_view(), token) {
                Some(self.components_view()[position_of(self.components_view(), token)])
            } else {
                None::<IndexComponent>
            }),
    {
        match self.find(token) {
            Some(i) => Some(self.components[i]),
            None => None,
        }
    }

    /// Whether the index is well formed: no component token and no rebalance
    /// authority is listed twice.
    pub fn is_well_formed(&self) -> (r: bool)
        ensures
            r == self.wf(),
    {
        let n = self.components.len();
        let mut i: usize = 0;
        while i < n
            invariant
                n == self.components@.len(),
                i <= n,
                forall|a: int, b: int| 0 <= a < i && 0 <= b < n && a != b ==> self.components@[a].token != self.components@[b].token,
            decreases n - i,
        {
            let mut j: usize = 0;
            while j < n
                invariant
                    n == self.components@.len(),
                    i < n,
                    j <= n,
                    forall|a: int, b: int| 0 <= a < i && 0 <= b < n && a != b ==> self.components@[a].token != self.components@[b].token,
                    forall|b: int| 0 <= b < j && b != i ==> self.components@[i as int].token != self.components@[b].token,
                decreases n - j,
            {
                if j != i && self.components[i].token == self.components[j].token {
                    return false;
                }
                j = j + 1;
            }
            i = i + 1;
        }
        let m = self.authorities.len();
        let mut k: usize = 0;
        while k < m
            invariant
                n == self.components@.len(),
                index_tokens_distinct(self.components@),
                m == self.authorities@.len(),
                k <= m,
                forall|a: int, b: int| 0 <= a < k && 0 <= b < m && a != b ==> self.authorities@[a] != self.authorities@[b],
            decreases m - k,
        {
            let mut l: usize = 0;
            while l < m
                invariant
                    m == self.authorities@.len(),
                    k < m,
                    l <= m,
                    forall|a: int, b: int| 0 <= a < k && 0 <= b < m && a != b ==> self.authorities@[a] != self.authorities@[b],
                    forall|b: int| 0 <= b < l && b != k ==> self.authorities@[k as int] != self.authorities@[b],
                decreases m - l,
            {
                if l != k && self.authorities[k] == self.authorities[l] {
                    proof {
                        assert(!self.authorities@.no_duplicates());
                    }
                    return false;
                }
                l = l + 1;
            }
            k = k + 1;
        }
        true
    }

    /// The swap-utility call that carries out one swap, when the component
    /// it concerns is part of the index.
    pub fn swap_utility_params(&self, params: &SwapParams) -> (r: Option<SwapUtilityParams>)
        requires
            self.wf(),
        ensures
            r == swap_call_spec(self.components_view(), *params, self.share_token),
    {
        let token = if params.token_out == self.share_token { params.token_in } else { params.token_out };
        match self.get_component_safe(token) {
            Some(c) => Some(SwapUtilityParams {
                provider: None,
                token_in: params.token_in,
                token_out: params.token_out,
                amount_in: params.amount_in,
                amount_out_min: params.amount_out_min,
                to: params.to,
                asset: c.asset,
                direction: SwapDirection::Buy,
            }),
            None => None,
        }
    }

    /// The swap-utility calls for a batch of swaps, one per swap and in
    /// order; `None` when some swap concerns a token that is not a
    /// component, in which case the batch cannot run.
    pub fn plan_swap_calls(&self, swaps: &Vec<SwapParams>) -> (r: Option<Vec<SwapUtilityParams>>)
        requires
            self.wf(),
        ensures
            r is Some <==> swaps_have_components(self.components_view(), swaps@, self.share_token),
            r is Some ==> r->Some_0@.len() == swaps@.len()
                && forall|i: int| 0 <= i < swaps@.len() ==>
                    Some(#[trigger] r->Some_0@[i]) == swap_call_spec(self.components_view(), swaps@[i], self.share_token),
    {
        let mut calls: Vec<SwapUtilityParams> = Vec::new();
        let mut i: usize = 0;
        while i < swaps.len()
            invariant
                self.wf(),
                i <= swaps@.len(),
                calls@.len() == i,
                forall|j: int| 0 <= j < i ==> Some(#[trigger] calls@[j]) == swap_call_spec(self.components_view(), swaps@[j], self.share_token),
            decreases swaps@.len() - i,
        {
            match self.swap_utility_params(&swaps[i]) {
                Some(c) => calls.push(c),
                None => {
                    proof {
                        assert(swap_call_spec(self.components_view(), swaps@[i as int], self.share_token) is None);
                    }
                    return None;
                },
            }
            i = i + 1;
        }
        proof {
            assert forall|j: int| 0 <= j < swaps@.len() implies (#[trigger] swap_call_spec(self.components_view(), swaps@[j], self.share_token)) is Some by {
                assert(Some(calls@[j]) == swap_call_spec(self.components_view(), swaps@[j], self.share_token));
            }
        }
        Some(calls)
    }

    /// The tracked balance of `token`, if one was recorded.
    pub fn get_component_balance_safe(&self, token: u64) -> (r: Option<u128>)
        requires
            self.wf(),
        ensures
            r == (if has_token(self.components_view(), token) {
                self.components_view()[position_of(self.components_view(), token)].balance
            } else {
                None::<u128>
            }),
    {
        match self.find(token) {
            Some(i) => self.components[i].balance,
            None => None,
        }
    }

    /// Records the tracked balance of a component of the index; other tokens
    /// are left alone and `false` is returned.
    pub fn set_component_balance(&mut self, token: u64, balance: u128) -> (r: bool)
        requires
            old(self).wf(),
        ensures
            final(self).wf(),
            r == has_token(old(self).components_view(), token),
            r ==> final(self).components_view() == old(self).components_view().update(
                position_of(old(self).components_view(), token),
                IndexComponent { balance: Some(balance), ..old(self).components_view()[position_of(old(self).components_view(), token)] }),
            !r ==> final(self).components_view() == old(self).components_view(),
            final(self).authorities_view() == old(self).authorities_view(),
    {
        match self.find(token) {
            Some(i) => {
                let c = self.components[i];
                self.components.set(i, IndexComponent { balance: Some(balance), ..c });
                true
            },
            None => false,
        }
    }

    /// Tracked balance of every component in registry order, zero when none
    /// was recorded.
    pub fn get_all_component_balances(&self) -> (r: Vec<(u64, u128)>)
        ensures
            r@.len() == self.components_view().len(),
            forall|i: int| 0 <= i < r@.len() ==> #[trigger] r@[i] == (self.components_view()[i].token,
                balance_or_zero(self.components_view()[i])),
    {
        let mut out: Vec<(u64, u128)> = Vec::new();
        let mut i: usize = 0;
        while i < self.components.len()
            invariant
                0 <= i <= self.components@.len(),
                out@.len() == i,
                forall|j: int| 0 <= j < i ==> #[trigger] out@[j] == (self.components@[j].token, balance_or_zero(self.components@[j])),
            decreases self.components@.len() - i,
        {
            let c = self.components[i];
            let b: u128 = match c.balance {
                Some(b) => b,
                None => 0,
            };
            out.push((c.token, b));
            i = i + 1;
        }
        out
    }

    /// All components in registry order.
    pub fn get_all_components(&self) -> (r: Vec<IndexComponent>)
        ensures
            r@ == self.components_view(),
    {
        self.components.clone()
    }

    /// Applies one update to the registry.
    fn apply_update(&mut self, u: ComponentUpdate, asset: u64) -> (r: Result<(), IndexError>)
        requires
            old(self).wf(),
        ensures
            final(self).wf(),
            same_except_components(final(self), old(self)),
            final(self).last_rebalance_ts == old(self).last_rebalance_ts,
            final(self).last_updated_ts == old(self).last_updated_ts,
            match index_update_spec(old(self).components_view(), u, asset) {
                Ok(s) => r is Ok && final(self).components_view() == s,
                Err(e) => r == Err::<(), IndexError>(e),
            },
    {
        let ghost s0 = self.components@;
        match u.action {
            ComponentAction::Add => {
                match self.find(u.token) {
                    Some(i) => {
                        let c = self.components[i];
                        self.components.set(i, IndexComponent { asset, weight: u.new_weight, ..c });
                        proof {
                            assert forall|a: int, b: int| 0 <= a < self.components@.len() && 0 <= b < self.components@.len() && a != b
                                implies self.components@[a].token != self.components@[b].token by {
                                assert(self.components@[a].token == s0[a].token);
                                assert(self.components@[b].token == s0[b].token);
                            }
                        }
                    },
                    None => {
                        self.components.push(IndexComponent { token: u.token, asset, weight: u.new_weight, balance: None });
                        proof {
                            assert forall|a: int, b: int| 0 <= a < self.components@.len() && 0 <= b < self.components@.len() && a != b
                                implies self.components@[a].token != self.components@[b].token by {
                                if a < s0.len() && b < s0.len() {
                                } else if a < s0.len() {
                                    assert(s0[a].token != u.token);
                                } else {
                                    assert(s0[b].token != u.token);
                                }
                            }
                        }
                    },
                }
                Ok(())
            },
            ComponentAction::Remove => {
                match self.find(u.token) {
                    Some(i) => {
                        self.components.remove(i);
                        proof {
                            assert forall|a: int, b: int| 0 <= a < self.components@.len() && 0 <= b < self.components@.len() && a != b
                                implies self.components@[a].token != self.components@[b].token by {
                                let a0 = if a < i { a } else { a + 1 };
                                let b0 = if b < i { b } else { b + 1 };
                                assert(self.components@[a] == s0[a0]);
                                assert(self.components@[b] == s0[b0]);
                            }
                        }
                        Ok(())
                    },
                    None => Err(IndexError::ComponentNotFound),
                }
            },
            ComponentAction::UpdateWeight => {
                match self.find(u.token) {
                    Some(i) => {
                        let c = self.components[i];
                        self.components.set(i, IndexComponent { weight: u.new_weight, ..c });
                        proof {
                            assert forall|a: int, b: int| 0 <= a < self.components@.len() && 0 <= b < self.components@.len() && a != b
                                implies self.components@[a].token != self.components@[b].token by {
                                assert(self.components@[a].token == s0[a].token);
                                assert(self.components@[b].token == s0[b].token);
                            }
                        }
                        Ok(())
                    },
                    None => Err(IndexError::ComponentNotFound),
                }
            },
        }
    }

    /// Applies the component updates of a rebalance in order. A missing
    /// component for a removal or re-weighting is refused, and when the batch
    /// sets weights their total must be 10_000. On refusal nothing changes.
    /// Returns the number of components updated.
    pub fn apply_component_updates(&mut self, updates: &Vec<ComponentUpdate>, asset: u64) -> (r: Result<u32, IndexError>)
        requires
            old(self).wf(),
            update_weight_total(updates@) <= u128::MAX,
            updates@.len() <= u32::MAX,
        ensures
            final(self).wf(),
            same_except_components(final(self), old(self)),
            final(self).last_rebalance_ts == old(self).last_rebalance_ts,
            final(self).last_updated_ts == old(self).last_updated_ts,
            match apply_updates_spec(old(self).components_view(), updates@, asset) {
                Ok(s) => r == Ok::<u32, IndexError>(updates@.len() as u32) && final(self).components_view() == s,
                Err(e) => r == Err::<u32, IndexError>(e) && final(self).components_view() == old(self).components_view(),
            },
    {
        let saved = self.components.clone();
        let ghost s0 = self.components@;
        let mut total_weight: u128 = 0;
        let mut any_weight = false;
        let mut i: usize = 0;
        while i < updates.len()
            invariant
                self.wf(),
                same_except_components(self, old(self)),
                self.last_rebalance_ts == old(self).last_rebalance_ts,
                self.last_updated_ts == old(self).last_updated_ts,
                s0 == old(self).components@,
                index_tokens_distinct(s0),
                saved@ == s0,
                0 <= i <= updates@.len(),
                update_weight_total(updates@) <= u128::MAX,
                index_updates_spec(s0, updates@.subrange(0, i as int), asset) == Ok::<Seq<IndexComponent>, IndexError>(self.components@),
                total_weight == update_weight_total(updates@.subrange(0, i as int)),
                any_weight == has_weight_update(updates@.subrange(0, i as int)),
            decreases updates@.len() - i,
        {
            let u = updates[i];
            proof {
                let pre = updates@.subrange(0, i as int);
                let post = updates@.subrange(0, i + 1);
                assert(post.drop_last() == pre);
                assert(post.last() == u);
                lemma_weight_total_prefix(updates@, i + 1);
            }
            match self.apply_update(u, asset) {
                Ok(()) => {},
                Err(e) => {
                    proof {
                        lemma_updates_err_extends(s0, updates@, i + 1, asset);
                    }
                    self.components = saved;
                    return Err(e);
                },
            }
            if u.action == ComponentAction::Add || u.action == ComponentAction::UpdateWeight {
                total_weight = total_weight + u.new_weight;
                any_weight = true;
            }
            proof {
                let pre = updates@.subrange(0, i as int);
                let post = updates@.subrange(0, i + 1);
                assert(post.drop_last() == pre);
                if sets_weight(u) {
                    assert(post[i as int] == u);
                } else {
                    assert forall|k: int| 0 <= k < post.len() && sets_weight(#[trigger] post[k]) implies 0 <= k < pre.len() && sets_weight(pre[k]) by {
                        if k == i {
                            assert(post[k] == u);
                        } else {
                            assert(post[k] == pre[k]);
                        }
                    }
                    if any_weight {
                        let k = choose|k: int| 0 <= k < pre.len() && sets_weight(#[trigger] pre[k]);
                        assert(post[k] == pre[k]);
                    }
                }
                if any_weight && sets_weight(u) {
                    assert(post[i as int] == u);
                }
            }
            i = i + 1;
        }
        proof {
            assert(updates@.subrange(0, updates@.len() as int) == updates@);
        }
        if any_weight && total_weight != 10_000 {
            self.components = saved;
            return Err(IndexError::InvalidWeightSum);
        }
        Ok(updates.len() as u32)
    }

    /// Whether the weights of the components total exactly 10_000.
    fn weights_complete(&self) -> (r: bool)
        ensures
            r == (component_weight_total(self.components@) == 10_000),
    {
        let mut total: u128 = 0;
        let mut over = false;
        let mut j: usize = 0;
        while j < self.components.len()
            invariant
                0 <= j <= self.components@.len(),
                total <= 10_000,
                over ==> component_weight_total(self.components@.subrange(0, j as int)) > 10_000,
                !over ==> total == component_weight_total(self.components@.subrange(0, j as int)),
            decreases self.components@.len() - j,
        {
            proof {
                assert(self.components@.subrange(0, j + 1).drop_last() =~= self.components@.subrange(0, j as int));
            }
            let w = self.components[j].weight;
            if !over {
                if w > 10_000 - total {
                    over = true;
                } else {
                    total = total + w;
                }
            }
            j = j + 1;
        }
        proof {
            assert(self.components@.subrange(0, j as int) =~= self.components@);
        }
        !over && total == 10_000
    }

    /// Refactors the component set. The caller must not be blacklisted and
    /// must be the admin or a rebalance authority. The updates are applied in
    /// order: adding sets a component, removing needs it, and re-weighting a
    /// token that is not a component is skipped; the weights must then total
    /// 10_000 unless no component is left. The index is marked as updated at
    /// `now` while the rebalance time stays, so that mints and redemptions
    /// wait for the next rebalance. A refused refactor changes nothing.
    pub fn refactor(&mut self, caller: IndexCaller, params: &RefactorParams, asset: u64, now: u64)
        -> (r: Result<(), IndexError>)
        requires
            old(self).wf(),
        ensures
            final(self).wf(),
            match refactor_check_spec(old(self), caller) {
                Err(e) => r == Err::<(), IndexError>(e) && unchanged(final(self), old(self)),
                Ok(()) => match refactor_result_spec(old(self).components_view(), params.component_updates@, asset) {
                    Err(e) => r == Err::<(), IndexError>(e) && unchanged(final(self), old(self)),
                    Ok(s) => {
                        &&& r is Ok
                        &&& final(self).components_view() == s
                        &&& final(self).last_updated_ts == now
                        &&& final(self).last_rebalance_ts == old(self).last_rebalance_ts
                        &&& same_except_components(final(self), old(self))
                    },
                },
            },
    {
        if caller.is_blacklisted {
            return Err(IndexError::Blacklisted);
        }
        if !caller.is_admin && !self.get_rebalance_authority_status(caller.address) {
            return Err(IndexError::UnauthorizedRefactor);
        }
        let saved = self.components.clone();
        let ghost s0 = self.components@;
        let mut i: usize = 0;
        while i < params.component_updates.len()
            invariant
                self.wf(),
                same_except_components(self, old(self)),
                self.last_rebalance_ts == old(self).last_rebalance_ts,
                self.last_updated_ts == old(self).last_updated_ts,
                s0 == old(self).components@,
                index_tokens_distinct(s0),
                saved@ == s0,
                refactor_check_spec(old(self), caller) is Ok,
                0 <= i <= params.component_updates@.len(),
                refactor_updates_spec(s0, params.component_updates@.subrange(0, i as int), asset) == Ok::<Seq<IndexComponent>, IndexError>(self.components@),
            decreases params.component_updates@.len() - i,
        {
            let u = params.component_updates[i];
            proof {
                let post = params.component_updates@.subrange(0, i + 1);
                assert(post.drop_last() == params.component_updates@.subrange(0, i as int));
                assert(post.last() == u);
            }
            let skip = u.action == ComponentAction::UpdateWeight && self.find(u.token).is_none();
            if !skip {
                match self.apply_update(u, asset) {
                    Ok(()) => {},
                    Err(e) => {
                        proof {
                            lemma_refactor_err_extends(s0, params.component_updates@, i + 1, asset);
                        }
                        self.components = saved;
                        return Err(e);
                    },
                }
            }
            i = i + 1;
        }
        proof {
            assert(params.component_updates@.subrange(0, params.component_updates@.len() as int) == params.component_updates@);
        }
        if self.components.len() > 0 && !self.weights_complete() {
            self.components = saved;
            return Err(IndexError::InvalidWeightSum);
        }
        self.last_updated_ts = now;
        Ok(())
    }

    /// Price of `token` in the base currency, derived from its weight: one
    /// unit times the weight (at least 10%) in bps; a token that is not a
    /// component is priced at one unit.
    pub fn get_token_price_in_base_currency(&self, token: u64) -> (r: u128)
        requires
            self.wf(),
        ensures
            r == (if has_token(self.components_view(), token) {
                weight_price_spec(self.components_view()[position_of(self.components_view(), token)].weight)
            } else {
                BASE_COMPONENT_PRICE
            }),
    {
        match self.find(token) {
            Some(i) => Self::get_price_from_component_weight(self.components[i].weight),
            None => BASE_COMPONENT_PRICE,
        }
    }

    /// Price derived from a component weight.
    pub fn get_price_from_component_weight(weight: u128) -> (r: u128)
        ensures
            r == weight_price_spec(weight),
    {
        let weight_multiplier = if weight > 0 {
            if weight > MIN_PRICE_WEIGHT { weight } else { MIN_PRICE_WEIGHT }
        } else {
            MIN_PRICE_WEIGHT
        };
        sat_mul(BASE_COMPONENT_PRICE, weight_multiplier) / 10_000
    }

    /// Total value of the index: each positive tracked balance times its
    /// weight price, summed with saturation.
    pub fn get_total_index_value(&self) -> (r: u128)
        ensures
            r == total_value_spec(self.components_view()),
    {
        let mut total_value: u128 = 0;
        let mut i: usize = 0;
        while i < self.components.len()
            invariant
                0 <= i <= self.components@.len(),
                total_value == total_value_spec(self.components@.subrange(0, i as int)),
            decreases self.components@.len() - i,
        {
            let c = self.components[i];
            let value: u128 = match c.balance {
                Some(b) => if b > 0 { sat_mul(b, Self::get_price_from_component_weight(c.weight)) } else { 0 },
                None => 0,
            };
            total_value = total_value.saturating_add(value);
            proof {
                let post = self.components@.subrange(0, i + 1);
                assert(post.drop_last() == self.components@.subrange(0, i as int));
                assert(post.last() == c);
            }
            i = i + 1;
        }
        proof {
            assert(self.components@.subrange(0, self.components@.len() as int) == self.components@);
        }
        total_value
    }

    /// The NAV of the index: its total value.
    pub fn get_current_nav(&self) -> (r: u128)
        ensures
            r == total_value_spec(self.components_view()),
    {
        self.get_total_index_value()
    }
}


/// Whether a refactor has happened since the last rebalance.
pub open spec fn refactor_pending(idx: &Index) -> bool {
    idx.last_updated_ts > idx.last_rebalance_ts
}

/// Error of a mint: the kill switch, the blacklist, a refactor awaiting its
/// rebalance, the whitelist of a private index and the share conversion are
/// checked in turn, and a mint that passes them all fails because no swap
/// route is configured.
pub open spec fn mint_error_spec(idx: &Index, caller: IndexCaller, amount: u128, total_shares: u128, vault_amount: u128) -> IndexError {
    if idx.is_killed_mint {
        IndexError::IndexMintKilled
    } else if caller.is_blacklisted {
        IndexError::Blacklisted
    } else if refactor_pending(idx) {
        IndexError::RebalanceRequiredAfterRefactor
    } else if !idx.is_public && !caller.is_admin && !caller.is_whitelisted {
        IndexError::NotWhitelisted
    } else if vault_amount_to_shares_spec(amount, total_shares, vault_amount) is None {
        IndexError::InvalidSharesDetected
    } else {
        IndexError::PathIsEmpty
    }
}

/// Checks of a redemption: the kill switch, the blacklist, a refactor
/// awaiting its rebalance and the whitelist of a private index.
pub open spec fn redeem_check_spec(idx: &Index, caller: IndexCaller) -> Result<(), IndexError> {
    if idx.is_killed_redeem {
        Err(IndexError::IndexRedeemKilled)
    } else if caller.is_blacklisted {
        Err(IndexError::Blacklisted)
    } else if refactor_pending(idx) {
        Err(IndexError::RebalanceRequiredAfterRefactor)
    } else if !idx.is_public && !caller.is_admin && !caller.is_whitelisted {
        Err(IndexError::NotWhitelisted)
    } else {
        Ok(())
    }
}

/// Checks of a rebalance: kill switch, blacklist, whitelist of a private
/// index, the cooldown, and who may rebalance (only the admin of a public
/// index; the admin or a rebalance authority of a private one).
pub open spec fn index_rebalance_check_spec(idx: &Index, caller: IndexCaller, now: u64) -> Result<(), IndexError> {
    if idx.is_killed_rebalance {
        Err(IndexError::IndexRebalanceKilled)
    } else if caller.is_blacklisted {
        Err(IndexError::Blacklisted)
    } else if !idx.is_public && !caller.is_admin && !caller.is_whitelisted {
        Err(IndexError::NotWhitelisted)
    } else if now < idx.last_rebalance_ts + idx.rebalance_threshold {
        Err(IndexError::RebalanceTooSoon)
    } else if idx.is_public && !caller.is_admin {
        Err(IndexError::PublicRebalanceRequiresProposal)
    } else if !idx.is_public && !caller.is_admin && !idx.authorities_view().contains(caller.address) {
        Err(IndexError::UnauthorizedRebalance)
    } else {
        Ok(())
    }
}

/// Checks of a refactor: a blacklisted caller is refused, and so is one
/// that is neither the admin nor a rebalance authority.
pub open spec fn refactor_check_spec(idx: &Index, caller: IndexCaller) -> Result<(), IndexError> {
    if caller.is_blacklisted {
        Err(IndexError::Blacklisted)
    } else if !caller.is_admin && !idx.authorities_view().contains(caller.address) {
        Err(IndexError::UnauthorizedRefactor)
    } else {
        Ok(())
    }
}

/// NAV a rebalance aims at: the requested one (reinterpreted as unsigned)
/// or the base NAV.
pub open spec fn target_nav_spec(target: Option<i128>, base_nav: u128) -> u128 {
    match target {
        Some(n) => n as u128,
        None => base_nav,
    }
}

pub open spec fn swap_min_out(amount: u128) -> i128 {
    ((amount * 95) / 100) as i128
}

/// Swaps that bring each component to its target for `nav`: buy the
/// shortfall with the base token, sell the excess for it.
pub open spec fn index_rebalance_swaps_spec(s: Seq<IndexComponent>, nav: u128, base: u64, to: u64) -> Seq<SwapParams>
    decreases s.len(),
{
    if s.len() == 0 {
        Seq::empty()
    } else {
        let prev = index_rebalance_swaps_spec(s.drop_last(), nav, base, to);
        let c = s.last();
        let cur = balance_or_zero(c);
        let t = target_balance(nav, c.weight);
        if t > cur {
            let amt = (t - cur) as u128;
            prev.push(SwapParams { token_in: base, token_out: c.token, amount_in: amt as i128, amount_out_min: swap_min_out(amt), to })
        } else if t < cur {
            let amt = (cur - t) as u128;
            prev.push(SwapParams { token_in: c.token, token_out: base, amount_in: amt as i128, amount_out_min: swap_min_out(amt), to })
        } else {
            prev
        }
    }
}

/// The swap amounts of a rebalance fit the contract's arithmetic.
pub open spec fn index_rebalance_fits(s: Seq<IndexComponent>, nav: u128) -> bool {
    forall|i: int| 0 <= i < s.len() ==> {
        let c = #[trigger] s[i];
        let t = target_balance(nav, c.weight);
        let cur = balance_or_zero(c);
        &&& nav * c.weight <= u128::MAX
        &&& (if t > cur { t - cur } else { cur - t }) * 95 <= i128::MAX
    }
}

/// Buys that spread a deposit over the components by weight, skipping the
/// deposited token itself; `None` when a buy's minimum output is not
/// positive.
pub open spec fn index_swap_params_spec(s: Seq<IndexComponent>, dep: u64, amount: u128, to: u64) -> Option<Seq<SwapParams>>
    decreases s.len(),
{
    if s.len() == 0 {
        Some(Seq::empty())
    } else {
        match index_swap_params_spec(s.drop_last(), dep, amount, to) {
            None => None,
            Some(prev) => {
                let c = s.last();
                let t = ((amount * c.weight) / 10_000) as u128;
                if t > 0 && c.token != dep {
                    if swap_min_out(t) > 0 {
                        Some(prev.push(SwapParams { token_in: dep, token_out: c.token, amount_in: t as i128, amount_out_min: swap_min_out(t), to }))
                    } else {
                        None
                    }
                } else {
                    Some(prev)
                }
            },
        }
    }
}

/// The weighted parts of a deposit fit the contract's arithmetic.
pub open spec fn index_deposit_fits(s: Seq<IndexComponent>, amount: u128) -> bool {
    forall|i: int| 0 <= i < s.len() ==> {
        let c = #[trigger] s[i];
        &&& amount * c.weight <= u128::MAX
        &&& ((amount * c.weight) / 10_000) * 95 <= i128::MAX
    }
}

pub open spec fn allocation_of(c: IndexComponent, nav: u128) -> ComponentAllocation {
    ComponentAllocation {
        token: c.token,
        asset: c.asset,
        weight: c.weight,
        current_balance: balance_or_zero(c),
        target_balance: target_balance(nav, c.weight),
        percentage_of_nav: if nav > 0 { ((balance_or_zero(c) * 10_000) / (nav as int)) as u128 } else { 0 },
    }
}

/// The allocation query's arithmetic fits.
pub open spec fn allocation_fits(s: Seq<IndexComponent>, nav: u128) -> bool {
    forall|i: int| 0 <= i < s.len() ==> {
        let c = #[trigger] s[i];
        &&& nav * c.weight <= u128::MAX
        &&& balance_or_zero(c) * 10_000 <= u128::MAX
    }
}

/// Everything but the components is the same.
pub open spec fn same_except_components(a: &Index, b: &Index) -> bool {
    &&& same_config(a, b)
    &&& a.fee_totals == b.fee_totals
}

/// Configuration, counters and authorities are the same.
pub open spec fn same_config(a: &Index, b: &Index) -> bool {
    &&& a.address == b.address
    &&& a.share_token == b.share_token
    &&& a.is_public == b.is_public
    &&& a.is_killed_mint == b.is_killed_mint
    &&& a.is_killed_redeem == b.is_killed_redeem
    &&& a.is_killed_rebalance == b.is_killed_rebalance
    &&& a.base_nav == b.base_nav
    &&& a.initial_price == b.initial_price
    &&& a.rebalance_threshold == b.rebalance_threshold
    &&& a.total_mints == b.total_mints
    &&& a.total_redemptions == b.total_redemptions
    &&& a.manager_fee_fraction == b.manager_fee_fraction
    &&& a.manager == b.manager
    &&& a.protocol_fee_recipient == b.protocol_fee_recipient
    &&& a.authorities_view() == b.authorities_view()
}

impl Index {
    /// A new index: no components, the admin as manager, and for a private
    /// index the given rebalance authorities (without repeats); fee
    /// collection is stamped at `now`.
    pub fn new(address: u64, share_token: u64, is_public: bool, manager_fee_fraction: u32, admin: u64,
        rebalance_authorities: &Vec<u64>, now: u64) -> (r: Index)
        ensures
            r.wf(),
            r.address == address && r.share_token == share_token && r.is_public == is_public,
            r.manager_fee_fraction == manager_fee_fraction && r.manager == Some(admin),
            r.protocol_fee_recipient is None,
            !r.is_killed_mint && !r.is_killed_redeem && !r.is_killed_rebalance,
            r.base_nav == 0 && r.initial_price == 0,
            r.last_rebalance_ts == 0 && r.last_updated_ts == 0,
            r.rebalance_threshold == INDEX_REBALANCE_THRESHOLD,
            r.total_mints == 0 && r.total_redemptions == 0,
            r.fee_totals == (crate::accrual::FeeTotals {
                accumulated_manager_fees: 0, accumulated_protocol_fees: 0, total_fees: 0, last_fee_collection: now }),
            r.components_view() == Seq::<IndexComponent>::empty(),
            is_public ==> r.authorities_view() == Seq::<u64>::empty(),
            !is_public ==> forall|a: u64| r.authorities_view().contains(a) <==> rebalance_authorities@.contains(a),
    {
        let mut idx = Index {
            address,
            share_token,
            is_public,
            is_killed_mint: false,
            is_killed_redeem: false,
            is_killed_rebalance: false,
            base_nav: 0,
            initial_price: 0,
            last_rebalance_ts: 0,
            last_updated_ts: 0,
            rebalance_threshold: INDEX_REBALANCE_THRESHOLD,
            total_mints: 0,
            total_redemptions: 0,
            manager_fee_fraction,
            manager: Some(admin),
            protocol_fee_recipient: None,
            fee_totals: crate::accrual::FeeTotals {
                accumulated_manager_fees: 0, accumulated_protocol_fees: 0, total_fees: 0, last_fee_collection: now },
            components: Vec::new(),
            authorities: Vec::new(),
        };
        if !is_public {
            let mut i: usize = 0;
            while i < rebalance_authorities.len()
                invariant
                    idx.wf(),
                    !is_public,
                    0 <= i <= rebalance_authorities@.len(),
                    idx.components@ == Seq::<IndexComponent>::empty(),
                    idx.address == address && idx.share_token == share_token && idx.is_public == is_public,
                    idx.manager_fee_fraction == manager_fee_fraction && idx.manager == Some(admin),
                    idx.protocol_fee_recipient is None,
                    !idx.is_killed_mint && !idx.is_killed_redeem && !idx.is_killed_rebalance,
                    idx.base_nav == 0 && idx.initial_price == 0,
                    idx.last_rebalance_ts == 0 && idx.last_updated_ts == 0,
                    idx.rebalance_threshold == INDEX_REBALANCE_THRESHOLD,
                    idx.total_mints == 0 && idx.total_redemptions == 0,
                    idx.fee_totals == (crate::accrual::FeeTotals {
                        accumulated_manager_fees: 0, accumulated_protocol_fees: 0, total_fees: 0, last_fee_collection: now }),
                    forall|a: u64| idx.authorities@.contains(a) <==> rebalance_authorities@.subrange(0, i as int).contains(a),
                decreases rebalance_authorities@.len() - i,
            {
                let a = rebalance_authorities[i];
                idx.set_rebalance_authority(a, true);
                proof {
                    let pre = rebalance_authorities@.subrange(0, i as int);
                    let post = rebalance_authorities@.subrange(0, i + 1);
                    assert(post == pre.push(a));
                    assert forall|x: u64| post.contains(x) <==> (pre.contains(x) || x == a) by {
                        if post.contains(x) && x != a {
                            let k = choose|k: int| 0 <= k < post.len() && post[k] == x;
                            assert(pre[k] == x);
                        }
                        if pre.contains(x) {
                            let k = choose|k: int| 0 <= k < pre.len() && pre[k] == x;
                            assert(post[k] == x);
                        }
                        if x == a {
                            assert(post[i as int] == a);
                        }
                    }
                }
                i = i + 1;
            }
            proof {
                assert(rebalance_authorities@.subrange(0, rebalance_authorities@.len() as int) == rebalance_authorities@);
            }
        }
        idx
    }

    /// Whether `address` is a rebalance authority.
    pub fn get_rebalance_authority_status(&self, address: u64) -> (r: bool)
        ensures
            r == self.authorities_view().contains(address),
    {
        let mut i: usize = 0;
        while i < self.authorities.len()
            invariant
                0 <= i <= self.authorities@.len(),
                forall|j: int| 0 <= j < i ==> self.authorities@[j] != address,
            decreases self.authorities@.len() - i,
        {
            if self.authorities[i] == address {
                return true;
            }
            i = i + 1;
        }
        false
    }

    /// Grants (`true`) or revokes (`false`) rebalance authority. A granted
    /// authority is appended once; a revoked one leaves the list.
    pub fn set_rebalance_authority(&mut self, authority: u64, status: bool)
        requires
            old(self).wf(),
        ensures
            final(self).wf(),
            final(self).components_view() == old(self).components_view(),
            status && old(self).authorities_view().contains(authority) ==> final(self).authorities_view() == old(self).authorities_view(),
            status && !old(self).authorities_view().contains(authority) ==> final(self).authorities_view() == old(self).authorities_view().push(authority),
            forall|a: u64| final(self).authorities_view().contains(a) <==>
                (if a == authority { status } else { old(self).authorities_view().contains(a) }),
            final(self).address == old(self).address && final(self).share_token == old(self).share_token,
            final(self).is_public == old(self).is_public,
            final(self).is_killed_mint == old(self).is_killed_mint,
            final(self).is_killed_redeem == old(self).is_killed_redeem,
            final(self).is_killed_rebalance == old(self).is_killed_rebalance,
            final(self).base_nav == old(self).base_nav && final(self).initial_price == old(self).initial_price,
            final(self).last_rebalance_ts == old(self).last_rebalance_ts,
            final(self).last_updated_ts == old(self).last_updated_ts,
            final(self).rebalance_threshold == old(self).rebalance_threshold,
            final(self).total_mints == old(self).total_mints,
            final(self).total_redemptions == old(self).total_redemptions,
            final(self).manager_fee_fraction == old(self).manager_fee_fraction,
            final(self).manager == old(self).manager,
            final(self).protocol_fee_recipient == old(self).protocol_fee_recipient,
            final(self).fee_totals == old(self).fee_totals,
    {
        let ghost a0 = self.authorities@;
        if status {
            if !self.get_rebalance_authority_status(authority) {
                self.authorities.push(authority);
                proof {
                    assert forall|x: u64| self.authorities@.contains(x) <==> (x == authority || a0.contains(x)) by {
                        if self.authorities@.contains(x) && x != authority {
                            let k = choose|k: int| 0 <= k < self.authorities@.len() && self.authorities@[k] == x;
                            assert(a0[k] == x);
                        }
                        if a0.contains(x) {
                            let k = choose|k: int| 0 <= k < a0.len() && a0[k] == x;
                            assert(self.authorities@[k] == x);
                        }
                        if x == authority {
                            assert(self.authorities@[a0.len() as int] == authority);
                        }
                    }
                    assert forall|i: int, j: int| 0 <= i < self.authorities@.len() && 0 <= j < self.authorities@.len() && i != j
                        implies self.authorities@[i] != self.authorities@[j] by {
                        if i == a0.len() {
                            assert(a0[j] == self.authorities@[j]);
                        } else if j == a0.len() {
                            assert(a0[i] == self.authorities@[i]);
                        }
                    }
                }
            }
        } else {
            let mut j: usize = 0;
            while j < self.authorities.len()
                invariant
                    0 <= j <= self.authorities@.len(),
                    self.authorities@ == a0,
                    forall|k: int| 0 <= k < j ==> a0[k] != authority,
                ensures
                    0 <= j <= a0.len(),
                    self.authorities@ == a0,
                    forall|k: int| 0 <= k < j ==> a0[k] != authority,
                    j < a0.len() ==> a0[j as int] == authority,
                decreases self.authorities@.len() - j,
            {
                if self.authorities[j] == authority {
                    break;
                }
                j = j + 1;
            }
            if j < self.authorities.len() {
                self.authorities.remove(j);
                proof {
                    let r = self.authorities@;
                    assert forall|x: u64| r.contains(x) <==> (x != authority && a0.contains(x)) by {
                        if r.contains(x) {
                            let k = choose|k: int| 0 <= k < r.len() && r[k] == x;
                            let k0 = if k < j { k } else { k + 1 };
                            assert(r[k] == a0[k0]);
                            if x == authority {
                                assert(a0[k0] == a0[j as int]);
                            }
                        }
                        if x != authority && a0.contains(x) {
                            let k = choose|k: int| 0 <= k < a0.len() && a0[k] == x;
                            assert(k != j);
                            if k < j {
                                assert(r[k] == x);
                            } else {
                                assert(r[k - 1] == x);
                            }
                        }
                    }
                    assert forall|p: int, q: int| 0 <= p < r.len() && 0 <= q < r.len() && p != q
                        implies r[p] != r[q] by {
                        let p0 = if p < j { p } else { p + 1 };
                        let q0 = if q < j { q } else { q + 1 };
                        assert(r[p] == a0[p0] && r[q] == a0[q0]);
                    }
                }
            } else {
                proof {
                    assert(!a0.contains(authority)) by {
                        if a0.contains(authority) {
                            let k = choose|k: int| 0 <= k < a0.len() && a0[k] == authority;
                        }
                    }
                }
            }
        }
    }

    /// All rebalance authorities, in the order they were granted.
    pub fn get_rebalance_authorities(&self) -> (r: Vec<u64>)
        ensures
            r@ == self.authorities_view(),
    {
        self.authorities.clone()
    }

    /// A mint of the index token. After the checks the deposit would be
    /// routed through the swap chain, which is empty, so every mint is
    /// refused; the error says which check stopped it.
    pub fn mint(&self, caller: IndexCaller, amount: u128, total_shares: u128, vault_amount: u128) -> (r: Result<u128, IndexError>)
        ensures
            r == Err::<u128, IndexError>(mint_error_spec(self, caller, amount, total_shares, vault_amount)),
    {
        if self.is_killed_mint {
            return Err(IndexError::IndexMintKilled);
        }
        if caller.is_blacklisted {
            return Err(IndexError::Blacklisted);
        }
        if self.last_updated_ts > self.last_rebalance_ts {
            return Err(IndexError::RebalanceRequiredAfterRefactor);
        }
        if !self.is_public && !caller.is_admin && !caller.is_whitelisted {
            return Err(IndexError::NotWhitelisted);
        }
        let n_shares = match vault_amount_to_shares(amount, total_shares, vault_amount) {
            Ok(n) => n,
            Err(e) => return Err(e),
        };
        let swaps_chain: Vec<SwapParams> = Vec::new();
        if swaps_chain.len() == 0 {
            return Err(IndexError::PathIsEmpty);
        }
        Ok(n_shares)
    }

    /// A redemption of `share_amount` shares by a holder: after the checks,
    /// the holder's pending fees are collected (when over the threshold) and
    /// the shares are taken off the holder's tracked balance. Returns the
    /// collected `(manager, protocol)` fees; a refused redemption changes
    /// nothing.
    pub fn redeem(&mut self, caller: IndexCaller, share_amount: u128, holder: &mut crate::accrual::UserFeeState,
        settings: &crate::accrual::FeeSettings, protocol_fee_rate_bps: u32, now: u64) -> (r: Result<(u128, u128), IndexError>)
        requires
            share_amount <= i128::MAX,
            crate::accrual::action_ok(*old(holder), old(self).fee_totals, *settings, protocol_fee_rate_bps, (-(share_amount as int)) as i128, now),
        ensures
            r is Err ==> r == Err::<(u128, u128), IndexError>(redeem_check_spec(old(self), caller)->Err_0)
                && *final(holder) == *old(holder) && final(self).fee_totals == old(self).fee_totals,
            r is Ok ==> redeem_check_spec(old(self), caller) is Ok
                && r->Ok_0.0 == crate::accrual::collected_if_any_spec(*old(holder), *settings, protocol_fee_rate_bps, now).0
                && r->Ok_0.1 == crate::accrual::collected_if_any_spec(*old(holder), *settings, protocol_fee_rate_bps, now).1
                && *final(holder) == crate::accrual::state_after_action_spec(*old(holder), *settings, protocol_fee_rate_bps, (-(share_amount as int)) as i128, now)
                && final(self).fee_totals == crate::accrual::totals_after_spec(old(self).fee_totals, r->Ok_0.0 as int, r->Ok_0.1 as int, now),
            redeem_check_spec(old(self), caller) is Ok <==> r is Ok,
            same_config(final(self), old(self)),
            final(self).components_view() == old(self).components_view(),
            final(self).last_rebalance_ts == old(self).last_rebalance_ts,
            final(self).last_updated_ts == old(self).last_updated_ts,
            final(self).wf() == old(self).wf(),
    {
        if self.is_killed_redeem {
            return Err(IndexError::IndexRedeemKilled);
        }
        if caller.is_blacklisted {
            return Err(IndexError::Blacklisted);
        }
        if self.last_updated_ts > self.last_rebalance_ts {
            return Err(IndexError::RebalanceRequiredAfterRefactor);
        }
        if !self.is_public && !caller.is_admin && !caller.is_whitelisted {
            return Err(IndexError::NotWhitelisted);
        }
        let change: i128 = -(share_amount as i128);
        let fees = crate::accrual::collect_fees_before_action(holder, &mut self.fee_totals, settings, protocol_fee_rate_bps, change, now);
        Ok(fees)
    }

    /// Whether the rebalance cooldown has passed and rebalancing is not
    /// killed.
    pub fn can_rebalance(&self, now: u64) -> (r: bool)
        requires
            self.last_rebalance_ts + self.rebalance_threshold <= u64::MAX,
        ensures
            r == index_can_rebalance_spec(self, now),
    {
        if self.is_killed_rebalance {
            return false;
        }
        now >= self.last_rebalance_ts + self.rebalance_threshold
    }

    /// Whether `caller` could rebalance now: not killed, past the cooldown,
    /// and the admin (public index) or the admin or an authority (private).
    pub fn can_address_rebalance(&self, caller: IndexCaller, now: u64) -> (r: bool)
        requires
            self.last_rebalance_ts + self.rebalance_threshold <= u64::MAX,
        ensures
            r == (!self.is_killed_rebalance && now >= self.last_rebalance_ts + self.rebalance_threshold
                && (if self.is_public { caller.is_admin } else { caller.is_admin || self.authorities_view().contains(caller.address) })),
    {
        if self.is_killed_rebalance {
            return false;
        }
        if now < self.last_rebalance_ts + self.rebalance_threshold {
            return false;
        }
        if self.is_public {
            caller.is_admin
        } else {
            caller.is_admin || self.get_rebalance_authority_status(caller.address)
        }
    }

    /// Operational status at `now`.
    pub fn get_index_status(&self, now: u64) -> (r: IndexStatus)
        requires
            self.last_rebalance_ts + self.rebalance_threshold <= u64::MAX,
        ensures
            r == (IndexStatus {
                is_killed_mint: self.is_killed_mint,
                is_killed_redeem: self.is_killed_redeem,
                is_killed_rebalance: self.is_killed_rebalance,
                is_public: self.is_public,
                can_rebalance: now >= self.last_rebalance_ts + self.rebalance_threshold && !self.is_killed_rebalance,
                last_rebalance_ts: self.last_rebalance_ts,
                rebalance_threshold: self.rebalance_threshold,
            }),
    {
        IndexStatus {
            is_killed_mint: self.is_killed_mint,
            is_killed_redeem: self.is_killed_redeem,
            is_killed_rebalance: self.is_killed_rebalance,
            is_public: self.is_public,
            can_rebalance: now >= self.last_rebalance_ts + self.rebalance_threshold && !self.is_killed_rebalance,
            last_rebalance_ts: self.last_rebalance_ts,
            rebalance_threshold: self.rebalance_threshold,
        }
    }

    /// Rebalance timing at `now`, with the authorities of a private index.
    pub fn get_rebalance_status(&self, now: u64) -> (r: RebalanceStatus)
        requires
            self.last_rebalance_ts + self.rebalance_threshold <= u64::MAX,
            self.is_killed_rebalance ==> now <= self.last_rebalance_ts + self.rebalance_threshold,
        ensures
            r.can_rebalance == (now >= self.last_rebalance_ts + self.rebalance_threshold && !self.is_killed_rebalance),
            r.time_until_next_rebalance == (if r.can_rebalance { 0 } else { (self.last_rebalance_ts + self.rebalance_threshold - now) as u64 }),
            r.last_rebalance_ts == self.last_rebalance_ts,
            r.rebalance_threshold == self.rebalance_threshold,
            r.is_public == self.is_public,
            r.authorized_rebalancers@ == (if self.is_public { Seq::<u64>::empty() } else { self.authorities_view() }),
    {
        let next = self.last_rebalance_ts + self.rebalance_threshold;
        let can_rebalance = now >= next && !self.is_killed_rebalance;
        let time_until_next = if can_rebalance { 0 } else { next - now };
        let authorized_rebalancers = if self.is_public { Vec::new() } else { self.get_rebalance_authorities() };
        RebalanceStatus {
            can_rebalance,
            time_until_next_rebalance: time_until_next,
            last_rebalance_ts: self.last_rebalance_ts,
            rebalance_threshold: self.rebalance_threshold,
            is_public: self.is_public,
            authorized_rebalancers,
        }
    }
}


/// Outcome of a manager fee distribution and the totals after it.
pub open spec fn distribute_manager_spec(t: crate::accrual::FeeTotals, manager: Option<u64>)
    -> (Result<u128, IndexError>, crate::accrual::FeeTotals) {
    if t.accumulated_manager_fees == 0 {
        (Ok(0), t)
    } else if manager is None {
        (Err(IndexError::ManagerNotSet), t)
    } else {
        (Ok(t.accumulated_manager_fees), crate::accrual::FeeTotals { accumulated_manager_fees: 0, ..t })
    }
}

/// Outcome of a protocol fee distribution and the totals after it.
pub open spec fn distribute_protocol_spec(t: crate::accrual::FeeTotals, recipient: Option<u64>)
    -> (Result<u128, IndexError>, crate::accrual::FeeTotals) {
    if t.accumulated_protocol_fees == 0 {
        (Ok(0), t)
    } else if recipient is None {
        (Err(IndexError::ProtocolRecipientNotSet), t)
    } else {
        (Ok(t.accumulated_protocol_fees), crate::accrual::FeeTotals { accumulated_protocol_fees: 0, ..t })
    }
}

/// Whether an index can be rebalanced at `now`.
pub open spec fn index_can_rebalance_spec(idx: &Index, now: u64) -> bool {
    !idx.is_killed_rebalance && now >= idx.last_rebalance_ts + idx.rebalance_threshold
}

/// The index's fields other than the components and the rebalance
/// timestamps are the same, and so are those.
pub open spec fn unchanged(a: &Index, b: &Index) -> bool {
    &&& same_except_components(a, b)
    &&& a.components_view() == b.components_view()
    &&& a.last_rebalance_ts == b.last_rebalance_ts
    &&& a.last_updated_ts == b.last_updated_ts
}

/// What a rebalance requires of the numbers: the weight totals and the
/// swap amounts fit.
pub open spec fn rebalance_numbers_fit(idx: &Index, params: &RebalanceParams, asset: u64) -> bool {
    &&& update_weight_total(params.component_updates@) <= u128::MAX
    &&& params.component_updates@.len() <= u32::MAX
    &&& match apply_updates_spec(idx.components_view(), params.component_updates@, asset) {
        Ok(s) => index_rebalance_fits(s, target_nav_spec(params.target_nav, idx.base_nav)),
        Err(_) => true,
    }
}

impl Index {
    /// Swaps that bring every component to its target balance for the
    /// target NAV (the requested one, or the base NAV): shortfalls are bought
    /// and excesses sold against the share token, with 5% slippage allowed.
    pub fn generate_rebalance_swaps(&self, target_nav: Option<i128>) -> (r: Vec<SwapParams>)
        requires
            index_rebalance_fits(self.components_view(), target_nav_spec(target_nav, self.base_nav)),
        ensures
            r@ == index_rebalance_swaps_spec(self.components_view(), target_nav_spec(target_nav, self.base_nav), self.share_token, self.address),
    {
        let nav: u128 = match target_nav {
            Some(n) => n as u128,
            None => self.base_nav,
        };
        let mut swaps: Vec<SwapParams> = Vec::new();
        let mut i: usize = 0;
        while i < self.components.len()
            invariant
                0 <= i <= self.components@.len(),
                nav == target_nav_spec(target_nav, self.base_nav),
                index_rebalance_fits(self.components@, nav),
                swaps@ == index_rebalance_swaps_spec(self.components@.subrange(0, i as int), nav, self.share_token, self.address),
            decreases self.components@.len() - i,
        {
            let c = self.components[i];
            proof {
                assert(self.components@[i as int] == c);
                let post = self.components@.subrange(0, i + 1);
                assert(post.drop_last() == self.components@.subrange(0, i as int));
                assert(post.last() == c);
            }
            let current_balance: u128 = match c.balance {
                Some(b) => b,
                None => 0,
            };
            let target: u128 = if nav > 0 { (nav * c.weight) / 10_000 } else { 0 };
            if target > current_balance {
                let amount_needed = target - current_balance;
                let amount_in = amount_needed as i128;
                swaps.push(SwapParams {
                    token_in: self.share_token,
                    token_out: c.token,
                    amount_in,
                    amount_out_min: (amount_in * 95) / 100,
                    to: self.address,
                });
            } else if target < current_balance {
                let amount_to_sell = current_balance - target;
                let amount_in = amount_to_sell as i128;
                swaps.push(SwapParams {
                    token_in: c.token,
                    token_out: self.share_token,
                    amount_in,
                    amount_out_min: (amount_in * 95) / 100,
                    to: self.address,
                });
            }
            i = i + 1;
        }
        proof {
            assert(self.components@.subrange(0, self.components@.len() as int) == self.components@);
        }
        swaps
    }

    /// Buys that spread a deposit of `deposit_amount` over the components by
    /// weight (5% slippage allowed), skipping the deposited token itself. A
    /// zero deposit, or a buy whose minimum output rounds to zero, is refused
    /// with `PathIsEmpty`.
    pub fn generate_swap_params(&self, deposit_token: u64, deposit_amount: u128) -> (r: Result<Vec<SwapParams>, IndexError>)
        requires
            index_deposit_fits(self.components_view(), deposit_amount),
        ensures
            deposit_amount == 0 ==> r == Err::<Vec<SwapParams>, IndexError>(IndexError::PathIsEmpty),
            deposit_amount > 0 ==> match index_swap_params_spec(self.components_view(), deposit_token, deposit_amount, self.address) {
                Some(v) => r is Ok && r->Ok_0@ == v,
                None => r == Err::<Vec<SwapParams>, IndexError>(IndexError::PathIsEmpty),
            },
    {
        if deposit_amount == 0 {
            return Err(IndexError::PathIsEmpty);
        }
        let mut swaps: Vec<SwapParams> = Vec::new();
        let mut i: usize = 0;
        while i < self.components.len()
            invariant
                0 <= i <= self.components@.len(),
                index_deposit_fits(self.components@, deposit_amount),
                index_swap_params_spec(self.components@.subrange(0, i as int), deposit_token, deposit_amount, self.address)
                    == Some(swaps@),
            decreases self.components@.len() - i,
        {
            let c = self.components[i];
            proof {
                assert(self.components@[i as int] == c);
                let post = self.components@.subrange(0, i + 1);
                assert(post.drop_last() == self.components@.subrange(0, i as int));
                assert(post.last() == c);
            }
            let target_allocation = (deposit_amount * c.weight) / 10_000;
            if target_allocation > 0 && deposit_token != c.token {
                let amount_in = target_allocation as i128;
                let min_output = (amount_in * 95) / 100;
                if min_output <= 0 {
                    proof {
                        lemma_swap_params_none_extends(self.components@, deposit_token, deposit_amount, self.address, i + 1);
                    }
                    return Err(IndexError::PathIsEmpty);
                }
                swaps.push(SwapParams {
                    token_in: deposit_token,
                    token_out: c.token,
                    amount_in,
                    amount_out_min: min_output,
                    to: self.address,
                });
            }
            i = i + 1;
        }
        proof {
            assert(self.components@.subrange(0, self.components@.len() as int) == self.components@);
        }
        Ok(swaps)
    }

    /// Rebalances the index: checks the caller and the cooldown, applies the
    /// component updates (refused as a whole on a missing component or a
    /// weight total other than 10_000), stamps both timestamps with `now` and
    /// returns the swaps towards the target NAV. A refused rebalance changes
    /// nothing.
    pub fn rebalance(&mut self, caller: IndexCaller, params: &RebalanceParams, asset: u64, now: u64)
        -> (r: Result<Vec<SwapParams>, IndexError>)
        requires
            old(self).wf(),
            old(self).last_rebalance_ts + old(self).rebalance_threshold <= u64::MAX,
            rebalance_numbers_fit(old(self), params, asset),
        ensures
            final(self).wf(),
            match index_rebalance_check_spec(old(self), caller, now) {
                Err(e) => r == Err::<Vec<SwapParams>, IndexError>(e) && unchanged(final(self), old(self)),
                Ok(()) => match apply_updates_spec(old(self).components_view(), params.component_updates@, asset) {
                    Err(e) => r == Err::<Vec<SwapParams>, IndexError>(e) && unchanged(final(self), old(self)),
                    Ok(s) => {
                        &&& r is Ok
                        &&& final(self).components_view() == s
                        &&& r->Ok_0@ == index_rebalance_swaps_spec(s, target_nav_spec(params.target_nav, old(self).base_nav),
                                old(self).share_token, old(self).address)
                        &&& final(self).last_rebalance_ts == now
                        &&& final(self).last_updated_ts == now
                        &&& same_except_components(final(self), old(self))
                    },
                },
            },
    {
        if self.is_killed_rebalance {
            return Err(IndexError::IndexRebalanceKilled);
        }
        if caller.is_blacklisted {
            return Err(IndexError::Blacklisted);
        }
        if !self.is_public && !caller.is_admin && !caller.is_whitelisted {
            return Err(IndexError::NotWhitelisted);
        }
        if now < self.last_rebalance_ts + self.rebalance_threshold {
            return Err(IndexError::RebalanceTooSoon);
        }
        if self.is_public {
            if !caller.is_admin {
                return Err(IndexError::PublicRebalanceRequiresProposal);
            }
        } else {
            if !caller.is_admin && !self.get_rebalance_authority_status(caller.address) {
                return Err(IndexError::UnauthorizedRebalance);
            }
        }
        match self.apply_component_updates(&params.component_updates, asset) {
            Ok(_) => {},
            Err(e) => return Err(e),
        }
        let swaps = self.generate_rebalance_swaps(params.target_nav);
        self.last_rebalance_ts = now;
        self.last_updated_ts = now;
        Ok(swaps)
    }

    /// NAV of the index: the base NAV while no shares exist, else the
    /// vault's holding of the share token (both reinterpreted as signed).
    pub fn get_nav(&self, total_shares: u128, vault_amount: u128) -> (r: i128)
        ensures
            r == (if total_shares == 0 { self.base_nav as i128 } else { vault_amount as i128 }),
    {
        if total_shares == 0 {
            return self.base_nav as i128;
        }
        vault_amount as i128
    }

    /// Price of one share: the initial price while no shares exist, else
    /// the NAV divided by the shares (rounded down).
    pub fn get_price(&self, total_shares: u128, vault_amount: u128) -> (r: i128)
        requires
            total_shares <= i128::MAX,
            vault_amount <= i128::MAX,
        ensures
            r == (if total_shares == 0 { self.initial_price as i128 } else { (vault_amount / total_shares) as i128 }),
    {
        if total_shares == 0 {
            return self.initial_price as i128;
        }
        (vault_amount / total_shares) as i128
    }

    /// Price of one share from the portfolio value: the initial price while
    /// there are no shares or no value, else value divided by shares.
    pub fn get_share_price(&self, total_shares: u128) -> (r: u128)
        ensures
            r == (if total_shares == 0 || total_value_spec(self.components_view()) == 0 {
                self.initial_price
            } else {
                total_value_spec(self.components_view()) / total_shares
            }),
    {
        if total_shares == 0 {
            return self.initial_price;
        }
        let total_value = self.get_total_index_value();
        if total_value == 0 {
            return self.initial_price;
        }
        total_value / total_shares
    }

    /// Financial metrics of the index.
    pub fn get_index_metrics(&self, total_shares: u128) -> (r: IndexMetrics)
        ensures
            r == (IndexMetrics {
                total_shares,
                total_mints: self.total_mints,
                total_redemptions: self.total_redemptions,
                total_fees: self.fee_totals.total_fees,
                accumulated_manager_fees: self.fee_totals.accumulated_manager_fees,
                accumulated_protocol_fees: self.fee_totals.accumulated_protocol_fees,
                current_nav: total_value_spec(self.components_view()),
                share_price: if total_shares == 0 || total_value_spec(self.components_view()) == 0 {
                    self.initial_price
                } else {
                    total_value_spec(self.components_view()) / total_shares
                },
            }),
    {
        let current_nav = self.get_current_nav();
        let share_price = self.get_share_price(total_shares);
        IndexMetrics {
            total_shares,
            total_mints: self.total_mints,
            total_redemptions: self.total_redemptions,
            total_fees: self.fee_totals.total_fees,
            accumulated_manager_fees: self.fee_totals.accumulated_manager_fees,
            accumulated_protocol_fees: self.fee_totals.accumulated_protocol_fees,
            current_nav,
            share_price,
        }
    }

    /// Comprehensive information on the index, with the share supply kept by
    /// the share token.
    pub fn get_index_info(&self, total_shares: u128) -> (r: IndexInfo)
        ensures
            r == (IndexInfo {
                address: self.address,
                token_address: self.share_token,
                total_shares,
                base_nav: self.base_nav,
                initial_price: self.initial_price,
                is_public: self.is_public,
                manager_fee_fraction: self.manager_fee_fraction,
                manager_address: self.manager,
                protocol_fee_recipient: self.protocol_fee_recipient,
                accumulated_manager_fees: self.fee_totals.accumulated_manager_fees,
                accumulated_protocol_fees: self.fee_totals.accumulated_protocol_fees,
                last_rebalance_ts: self.last_rebalance_ts,
                last_updated_ts: self.last_updated_ts,
                total_mints: self.total_mints,
                total_redemptions: self.total_redemptions,
                total_fees: self.fee_totals.total_fees,
                is_killed_mint: self.is_killed_mint,
                is_killed_redeem: self.is_killed_redeem,
                is_killed_rebalance: self.is_killed_rebalance,
            }),
    {
        IndexInfo {
            address: self.address,
            token_address: self.share_token,
            total_shares,
            base_nav: self.base_nav,
            initial_price: self.initial_price,
            is_public: self.is_public,
            manager_fee_fraction: self.manager_fee_fraction,
            manager_address: self.manager,
            protocol_fee_recipient: self.protocol_fee_recipient,
            accumulated_manager_fees: self.fee_totals.accumulated_manager_fees,
            accumulated_protocol_fees: self.fee_totals.accumulated_protocol_fees,
            last_rebalance_ts: self.last_rebalance_ts,
            last_updated_ts: self.last_updated_ts,
            total_mints: self.total_mints,
            total_redemptions: self.total_redemptions,
            total_fees: self.fee_totals.total_fees,
            is_killed_mint: self.is_killed_mint,
            is_killed_redeem: self.is_killed_redeem,
            is_killed_rebalance: self.is_killed_rebalance,
        }
    }

    /// Current and target balance and NAV share of every component, against
    /// the index's current NAV.
    pub fn get_component_allocation(&self) -> (r: Vec<ComponentAllocation>)
        requires
            allocation_fits(self.components_view(), total_value_spec(self.components_view())),
        ensures
            r@.len() == self.components_view().len(),
            forall|i: int| 0 <= i < r@.len() ==> #[trigger] r@[i] == allocation_of(self.components_view()[i], total_value_spec(self.components_view())),
    {
        let nav = self.get_current_nav();
        let mut out: Vec<ComponentAllocation> = Vec::new();
        let mut i: usize = 0;
        while i < self.components.len()
            invariant
                0 <= i <= self.components@.len(),
                nav == total_value_spec(self.components@),
                allocation_fits(self.components@, nav),
                out@.len() == i,
                forall|j: int| 0 <= j < i ==> #[trigger] out@[j] == allocation_of(self.components@[j], nav),
            decreases self.components@.len() - i,
        {
            let c = self.components[i];
            proof {
                assert(self.components@[i as int] == c);
            }
            let current_balance: u128 = match c.balance {
                Some(b) => b,
                None => 0,
            };
            let target: u128 = if nav > 0 { (nav * c.weight) / 10_000 } else { 0 };
            let percentage: u128 = if nav > 0 { (current_balance * 10_000) / nav } else { 0 };
            out.push(ComponentAllocation {
                token: c.token,
                asset: c.asset,
                weight: c.weight,
                current_balance,
                target_balance: target,
                percentage_of_nav: percentage,
            });
            i = i + 1;
        }
        out
    }

    /// Pays out the accumulated manager fees: nothing to do when none
    /// accumulated, refused when no manager is set, else the accumulated
    /// amount is returned for transfer and reset to zero.
    pub fn distribute_manager_fees(&mut self) -> (r: Result<u128, IndexError>)
        ensures
            (r, final(self).fee_totals) == distribute_manager_spec(old(self).fee_totals, old(self).manager),
            same_config(final(self), old(self)),
            final(self).components_view() == old(self).components_view(),
            final(self).last_rebalance_ts == old(self).last_rebalance_ts,
            final(self).last_updated_ts == old(self).last_updated_ts,
    {
        let accumulated = self.fee_totals.accumulated_manager_fees;
        if accumulated == 0 {
            return Ok(0);
        }
        if self.manager.is_none() {
            return Err(IndexError::ManagerNotSet);
        }
        self.fee_totals.accumulated_manager_fees = 0;
        Ok(accumulated)
    }

    /// Pays out the accumulated protocol fees: nothing to do when none
    /// accumulated, refused when no recipient is set, else the accumulated
    /// amount is returned for transfer and reset to zero.
    pub fn distribute_protocol_fees(&mut self) -> (r: Result<u128, IndexError>)
        ensures
            (r, final(self).fee_totals) == distribute_protocol_spec(old(self).fee_totals, old(self).protocol_fee_recipient),
            same_config(final(self), old(self)),
            final(self).components_view() == old(self).components_view(),
            final(self).last_rebalance_ts == old(self).last_rebalance_ts,
            final(self).last_updated_ts == old(self).last_updated_ts,
    {
        let accumulated = self.fee_totals.accumulated_protocol_fees;
        if accumulated == 0 {
            return Ok(0);
        }
        if self.protocol_fee_recipient.is_none() {
            return Err(IndexError::ProtocolRecipientNotSet);
        }
        self.fee_totals.accumulated_protocol_fees = 0;
        Ok(accumulated)
    }
}

/// Holder state after the tracking part of a transfer: collection with
/// the change, then the change once more in the tracking update.
pub open spec fn transfer_side_spec(s: crate::accrual::UserFeeState, settings: crate::accrual::FeeSettings, rate: u32,
    change: i128, now: u64) -> crate::accrual::UserFeeState {
    let a = crate::accrual::state_after_action_spec(s, settings, rate, change, now);
    crate::accrual::UserFeeState { balance: crate::accrual::tracked_balance_spec(a.balance, change), last_fee_update: now, ..a }
}

/// Totals after the sender's collection of a transfer.
pub open spec fn totals_after_sender(t: crate::accrual::FeeTotals, from: crate::accrual::UserFeeState,
    settings: crate::accrual::FeeSettings, rate: u32, now: u64) -> crate::accrual::FeeTotals {
    let (m, p) = crate::accrual::collected_if_any_spec(from, settings, rate, now);
    crate::accrual::totals_after_spec(t, m, p, now)
}

/// What a transfer between two holders requires of the numbers.
pub open spec fn transfer_ok(from: crate::accrual::UserFeeState, to: crate::accrual::UserFeeState,
    t: crate::accrual::FeeTotals, settings: crate::accrual::FeeSettings, from_rate: u32, to_rate: u32, amount: u128, now: u64) -> bool {
    let neg = (-(amount as int)) as i128;
    let pos = amount as i128;
    &&& amount <= i128::MAX
    &&& crate::accrual::action_ok(from, t, settings, from_rate, neg, now)
    &&& crate::accrual::action_ok(to, totals_after_sender(t, from, settings, from_rate, now), settings, to_rate, pos, now)
    &&& i128::MIN <= crate::accrual::state_after_action_spec(from, settings, from_rate, neg, now).balance + neg
    &&& crate::accrual::state_after_action_spec(to, settings, to_rate, pos, now).balance + pos <= i128::MAX
}

impl Index {
    /// Fee tracking of a share transfer between two distinct holders: both
    /// holders' fees are collected (the sender's first), then each side's
    /// balance change is applied with the collection and once more in the
    /// tracking update. Returns the fees collected from the sender and from
    /// the recipient.
    pub fn transfer_shares(&mut self, from: &mut crate::accrual::UserFeeState, to: &mut crate::accrual::UserFeeState,
        settings: &crate::accrual::FeeSettings, from_rate: u32, to_rate: u32, amount: u128, now: u64)
        -> (r: ((u128, u128), (u128, u128)))
        requires
            transfer_ok(*old(from), *old(to), old(self).fee_totals, *settings, from_rate, to_rate, amount, now),
        ensures
            r.0.0 == crate::accrual::collected_if_any_spec(*old(from), *settings, from_rate, now).0,
            r.0.1 == crate::accrual::collected_if_any_spec(*old(from), *settings, from_rate, now).1,
            r.1.0 == crate::accrual::collected_if_any_spec(*old(to), *settings, to_rate, now).0,
            r.1.1 == crate::accrual::collected_if_any_spec(*old(to), *settings, to_rate, now).1,
            *final(from) == transfer_side_spec(*old(from), *settings, from_rate, (-(amount as int)) as i128, now),
            *final(to) == transfer_side_spec(*old(to), *settings, to_rate, amount as i128, now),
            final(self).fee_totals == crate::accrual::totals_after_spec(
                totals_after_sender(old(self).fee_totals, *old(from), *settings, from_rate, now),
                r.1.0 as int, r.1.1 as int, now),
            same_config(final(self), old(self)),
            final(self).components_view() == old(self).components_view(),
            final(self).last_rebalance_ts == old(self).last_rebalance_ts,
            final(self).last_updated_ts == old(self).last_updated_ts,
    {
        let pos = amount as i128;
        let neg = -pos;
        let sent = crate::accrual::collect_fees_before_action(from, &mut self.fee_totals, settings, from_rate, neg, now);
        let received = crate::accrual::collect_fees_before_action(to, &mut self.fee_totals, settings, to_rate, pos, now);
        crate::accrual::initialize_or_update_user_tracking(from, neg, now);
        crate::accrual::initialize_or_update_user_tracking(to, pos, now);
        (sent, received)
    }
}

/// A successful rebalance at `now` starts a new cooldown: the rebalanced
/// index cannot be rebalanced again before `now + rebalance_threshold`, and
/// the same caller's next rebalance before then is refused as too soon.
pub proof fn lemma_rebalance_starts_cooldown(before: &Index, after: &Index, caller: IndexCaller, now: u64, later: u64)
    requires
        same_except_components(after, before),
        after.last_rebalance_ts == now,
        index_rebalance_check_spec(before, caller, now) is Ok,
        later < now + before.rebalance_threshold,
    ensures
        !index_can_rebalance_spec(after, later),
        index_rebalance_check_spec(after, caller, later) == Err::<(), IndexError>(IndexError::RebalanceTooSoon),
{
}

/// After a successful refactor the weights of the components total 10_000,
/// or no component is left.
pub proof fn lemma_index_refactor_weights_complete(s: Seq<IndexComponent>, us: Seq<ComponentUpdate>, asset: u64)
    requires
        refactor_result_spec(s, us, asset) is Ok,
    ensures
        refactor_result_spec(s, us, asset)->Ok_0.len() == 0
            || component_weight_total(refactor_result_spec(s, us, asset)->Ok_0) == 10_000,
{
}

/// A refactor at `now`, later than the last rebalance, holds back mints and
/// redemptions: until the next rebalance every mint and every redemption
/// that neither a kill switch nor the blacklist stops is refused as needing
/// a rebalance.
pub proof fn lemma_refactor_requires_rebalance(before: &Index, after: &Index, refactorer: IndexCaller,
    us: Seq<ComponentUpdate>, asset: u64, now: u64, caller: IndexCaller, amount: u128, total_shares: u128,
    vault_amount: u128)
    requires
        refactor_check_spec(before, refactorer) is Ok,
        refactor_result_spec(before.components_view(), us, asset) is Ok,
        after.components_view() == refactor_result_spec(before.components_view(), us, asset)->Ok_0,
        after.last_updated_ts == now,
        after.last_rebalance_ts == before.last_rebalance_ts,
        same_except_components(after, before),
        now > before.last_rebalance_ts,
    ensures
        !after.is_killed_mint && !caller.is_blacklisted ==> mint_error_spec(after, caller, amount, total_shares, vault_amount)
            == IndexError::RebalanceRequiredAfterRefactor,
        !after.is_killed_redeem && !caller.is_blacklisted ==> redeem_check_spec(after, caller)
            == Err::<(), IndexError>(IndexError::RebalanceRequiredAfterRefactor),
{
}

/// A successful rebalance lifts the hold of a refactor: afterwards no
/// refactor is pending, so mints and redemptions are no longer refused for it.
pub proof fn lemma_rebalance_clears_refactor(before: &Index, after: &Index, caller: IndexCaller, now: u64)
    requires
        index_rebalance_check_spec(before, caller, now) is Ok,
        same_except_components(after, before),
        after.last_rebalance_ts == now,
        after.last_updated_ts == now,
    ensures
        !refactor_pending(after),
        !after.is_killed_redeem && !caller.is_blacklisted && (after.is_public || caller.is_admin || caller.is_whitelisted)
            ==> redeem_check_spec(after, caller) is Ok,
{
}

/// Distributing manager fees empties the accumulated amount: a second
/// distribution right after one pays nothing and changes nothing, and a
/// successful one pays exactly what had accumulated.
pub proof fn lemma_distribute_manager_twice(t: crate::accrual::FeeTotals, manager: Option<u64>)
    ensures
        distribute_manager_spec(t, manager).0 is Ok ==>
            distribute_manager_spec(distribute_manager_spec(t, manager).1, manager)
                == (Ok::<u128, IndexError>(0), distribute_manager_spec(t, manager).1),
        distribute_manager_spec(t, manager).0 is Ok ==>
            distribute_manager_spec(t, manager).0->Ok_0 == t.accumulated_manager_fees,
{
}

/// The same for protocol fees.
pub proof fn lemma_distribute_protocol_twice(t: crate::accrual::FeeTotals, recipient: Option<u64>)
    ensures
        distribute_protocol_spec(t, recipient).0 is Ok ==>
            distribute_protocol_spec(distribute_protocol_spec(t, recipient).1, recipient)
                == (Ok::<u128, IndexError>(0), distribute_protocol_spec(t, recipient).1),
        distribute_protocol_spec(t, recipient).0 is Ok ==>
            distribute_protocol_spec(t, recipient).0->Ok_0 == t.accumulated_protocol_fees,
{
}

/// Kind of an insurance-fund stake change.
#[derive(Debug, Clone, Copy, PartialEq, Eq, Structural)]
pub enum StakeAction {
    Mint,
    Redeem,
}

/// A user's stake in the insurance fund.
#[derive(Debug, Clone, Copy, PartialEq, Eq, Structural)]
pub struct Stake {
    pub user: u64,
    pub amount: u128,
}

/// The stake of `user`. The insurance fund records no stakes yet, so there
/// is none.
pub fn get_stake(user: u64) -> (r: Option<Stake>)
    ensures
        r is None,
{
    None
}

/// Insurance-fund shares lost to a rebase; none while the fund keeps no
/// stakes.
pub fn calculate_if_shares_lost() -> (r: u128)
    ensures
        r == 0,
{
    0
}

/// Vault amount of insurance-fund shares: one for one.
pub fn if_shares_to_vault_amount(shares: u128) -> (r: u128)
    ensures
        r == shares,
{
    shares
}

/// Insurance-fund shares of a vault amount: one for one.
pub fn vault_amount_to_if_shares(amount: u128) -> (r: u128)
    ensures
        r == amount,
{
    amount
}

/// A trading volume to report to the factory.
#[derive(Debug, Clone, Copy, PartialEq, Eq, Structural)]
pub struct VolumeRecord {
    pub factory: u64,
    pub user: u64,
    pub usd_amount: u128,
    /// The reporting index.
    pub index: u64,
}

/// Tracks users' trading volume in USD for the factory's fee tiers.
#[derive(Debug, Clone, Copy)]
pub struct VolumeTracker;

impl VolumeTracker {
    /// USD value of a token amount. No token price source is connected, so
    /// there is never a value.
    pub fn convert_to_usd(factory: Option<u64>, token: u64, amount: u128) -> (r: Option<u128>)
        ensures
            r is None,
    {
        None
    }

    /// Volume report of a mint, when its USD value is known; as no value is
    /// ever known, nothing is reported.
    pub fn record_mint_volume(factory: Option<u64>, user: u64, token: u64, amount: u128, index: u64) -> (r: Option<VolumeRecord>)
        ensures
            r is None,
    {
        match Self::convert_to_usd(factory, token, amount) {
            Some(usd_amount) => Self::record_user_volume_in_factory(factory, user, usd_amount, index),
            None => None,
        }
    }

    /// Volume report of a redemption worth `share_value_usd`.
    pub fn record_redeem_volume(factory: Option<u64>, user: u64, share_value_usd: u128, index: u64) -> (r: Option<VolumeRecord>)
        ensures
            r == (match factory {
                Some(f) => Some(VolumeRecord { factory: f, user, usd_amount: share_value_usd, index }),
                None => None::<VolumeRecord>,
            }),
    {
        Self::record_user_volume_in_factory(factory, user, share_value_usd, index)
    }

    /// The report to send to the factory, when one is connected.
    fn record_user_volume_in_factory(factory: Option<u64>, user: u64, usd_amount: u128, index: u64) -> (r: Option<VolumeRecord>)
        ensures
            r == (match factory {
                Some(f) => Some(VolumeRecord { factory: f, user, usd_amount, index }),
                None => None::<VolumeRecord>,
            }),
    {
        match factory {
            Some(f) => Some(VolumeRecord { factory: f, user, usd_amount, index }),
            None => None,
        }
    }

    /// USD value of redeemed shares: shares times NAV per share (saturating),
    /// in 7-decimal units.
    pub fn calculate_redeem_usd_value(shares: u128, nav_per_share: u128) -> (r: u128)
        ensures
            r == sat_mul_spec(shares, nav_per_share) / 10_000_000,
    {
        sat_mul(shares, nav_per_share) / 10_000_000
    }
}

proof fn lemma_swap_params_none_extends(s: Seq<IndexComponent>, dep: u64, amount: u128, to: u64, k: int)
    requires
        0 <= k <= s.len(),
        index_swap_params_spec(s.subrange(0, k), dep, amount, to) is None,
    ensures
        index_swap_params_spec(s, dep, amount, to) is None,
    decreases s.len() - k,
{
    if k < s.len() {
        let next = s.subrange(0, k + 1);
        assert(next.drop_last() == s.subrange(0, k));
        lemma_swap_params_none_extends(s, dep, amount, to, k + 1);
    } else {
        assert(s.subrange(0, k) == s);
    }
}

proof fn lemma_weight_total_prefix(us: Seq<ComponentUpdate>, k: int)
    requires
        0 <= k <= us.len(),
    ensures
        update_weight_total(us.subrange(0, k)) <= update_weight_total(us),
    decreases us.len(),
{
    if k < us.len() {
        assert(us.drop_last().subrange(0, k) == us.subrange(0, k));
        lemma_weight_total_prefix(us.drop_last(), k);
    } else {
        assert(us.subrange(0, k) == us);
    }
}

proof fn lemma_updates_err_extends(s: Seq<IndexComponent>, us: Seq<ComponentUpdate>, k: int, asset: u64)
    requires
        0 <= k <= us.len(),
        index_updates_spec(s, us.subrange(0, k), asset) is Err,
    ensures
        index_updates_spec(s, us, asset) == index_updates_spec(s, us.subrange(0, k), asset),
        apply_updates_spec(s, us, asset) == index_updates_spec(s, us.subrange(0, k), asset),
    decreases us.len() - k,
{
    if k < us.len() {
        let next = us.subrange(0, k + 1);
        assert(next.drop_last() == us.subrange(0, k));
        lemma_updates_err_extends(s, us, k + 1, asset);
    } else {
        assert(us.subrange(0, k) == us);
    }
}

proof fn lemma_position_unique(s: Seq<IndexComponent>, t: u64, i: int)
    requires
        index_tokens_distinct(s),
        0 <= i < s.len(),
        s[i].token == t,
    ensures
        has_token(s, t),
        position_of(s, t) == i,
{
    assert(has_token(s, t));
    let j = position_of(s, t);
    if j != i {
        assert(s[j].token != s[i].token);
    }
}

/// One refactor update: the registry stays free of repeats; another token
/// keeps its presence and weight; the named token, unless removed, has the
/// update's weight whenever it is present, and an addition puts it there
/// with the given asset.
proof fn lemma_refactor_step(r: Seq<IndexComponent>, u: ComponentUpdate, asset: u64, t: u64)
    requires
        index_tokens_distinct(r),
        refactor_update_spec(r, u, asset) is Ok,
    ensures
        ({
            let r2 = refactor_update_spec(r, u, asset)->Ok_0;
            &&& index_tokens_distinct(r2)
            &&& u.token != t ==> (has_token(r2, t) <==> has_token(r, t))
            &&& u.token != t && has_token(r, t) ==> r2[position_of(r2, t)].weight == r[position_of(r, t)].weight
                && r2[position_of(r2, t)].asset == r[position_of(r, t)].asset
            &&& u.token == t && !(u.action is Remove) && has_token(r2, t) ==> r2[position_of(r2, t)].weight == u.new_weight
            &&& u.token == t && u.action is Add ==> has_token(r2, t) && r2[position_of(r2, t)].asset == asset
        }),
{
    let r2 = refactor_update_spec(r, u, asset)->Ok_0;
    if u.action is UpdateWeight && !has_token(r, u.token) {
        assert(r2 == r);
        return;
    }
    match u.action {
        ComponentAction::Remove => {
            let j = position_of(r, u.token);
            assert forall|a: int, b: int| 0 <= a < r2.len() && 0 <= b < r2.len() && a != b implies r2[a].token != r2[b].token by {
                let a0 = if a < j { a } else { a + 1 };
                let b0 = if b < j { b } else { b + 1 };
                assert(r2[a] == r[a0]);
                assert(r2[b] == r[b0]);
            }
            if u.token != t {
                if has_token(r, t) {
                    let i = position_of(r, t);
                    assert(i != j);
                    let i2 = if i < j { i } else { i - 1 };
                    assert(r2[i2] == r[i]);
                    lemma_position_unique(r2, t, i2);
                }
                if has_token(r2, t) {
                    let x = position_of(r2, t);
                    let x0 = if x < j { x } else { x + 1 };
                    assert(r2[x] == r[x0]);
                    assert(has_token(r, t));
                }
            }
        },
        ComponentAction::Add => {
            if has_token(r, u.token) {
                let i = position_of(r, u.token);
                assert forall|a: int, b: int| 0 <= a < r2.len() && 0 <= b < r2.len() && a != b implies r2[a].token != r2[b].token by {
                    assert(r2[a].token == r[a].token);
                    assert(r2[b].token == r[b].token);
                }
                lemma_position_unique(r2, u.token, i);
                if u.token != t {
                    if has_token(r, t) {
                        let k = position_of(r, t);
                        assert(r2[k] == r[k]);
                        lemma_position_unique(r2, t, k);
                    }
                    if has_token(r2, t) {
                        let x = position_of(r2, t);
                        assert(r2[x].token == r[x].token);
                        assert(has_token(r, t));
                    }
                }
            } else {
                assert forall|a: int, b: int| 0 <= a < r2.len() && 0 <= b < r2.len() && a != b implies r2[a].token != r2[b].token by {
                    if a < r.len() && b < r.len() {
                    } else if a < r.len() {
                        assert(r[a].token != u.token);
                    } else {
                        assert(r[b].token != u.token);
                    }
                }
                lemma_position_unique(r2, u.token, r.len() as int);
                if u.token != t {
                    if has_token(r, t) {
                        let k = position_of(r, t);
                        assert(r2[k] == r[k]);
                        lemma_position_unique(r2, t, k);
                    }
                    if has_token(r2, t) {
                        let x = position_of(r2, t);
                        assert(x < r.len());
                        assert(r2[x] == r[x]);
                        assert(has_token(r, t));
                    }
                }
            }
        },
        ComponentAction::UpdateWeight => {
            let i = position_of(r, u.token);
            assert forall|a: int, b: int| 0 <= a < r2.len() && 0 <= b < r2.len() && a != b implies r2[a].token != r2[b].token by {
                assert(r2[a].token == r[a].token);
                assert(r2[b].token == r[b].token);
            }
            lemma_position_unique(r2, u.token, i);
            if u.token != t {
                if has_token(r, t) {
                    let k = position_of(r, t);
                    assert(r2[k] == r[k]);
                    lemma_position_unique(r2, t, k);
                }
                if has_token(r2, t) {
                    let x = position_of(r2, t);
                    assert(r2[x].token == r[x].token);
                    assert(has_token(r, t));
                }
            }
        },
    }
}

proof fn lemma_refactor_updates_set_weight(s: Seq<IndexComponent>, us: Seq<ComponentUpdate>, asset: u64, k: int)
    requires
        index_tokens_distinct(s),
        refactor_updates_spec(s, us, asset) is Ok,
        0 <= k < us.len(),
        !(us[k].action is Remove),
        forall|j: int| k < j < us.len() ==> (#[trigger] us[j]).token != us[k].token,
    ensures
        ({
            let s1 = refactor_updates_spec(s, us, asset)->Ok_0;
            let t = us[k].token;
            &&& index_tokens_distinct(s1)
            &&& has_token(s1, t) ==> s1[position_of(s1, t)].weight == us[k].new_weight
            &&& us[k].action is Add ==> has_token(s1, t) && s1[position_of(s1, t)].asset == asset
        }),
    decreases us.len(),
{
    let init = us.drop_last();
    let t = us[k].token;
    lemma_refactor_updates_distinct(s, init, asset);
    let prev = refactor_updates_spec(s, init, asset);
    assert(prev is Ok);
    let r = prev->Ok_0;
    assert(us.last() == us[us.len() - 1]);
    if k == us.len() - 1 {
        lemma_refactor_step(r, us.last(), asset, t);
    } else {
        assert(init[k] == us[k]);
        assert forall|j: int| k < j < init.len() implies (#[trigger] init[j]).token != init[k].token by {
            assert(init[j] == us[j]);
        }
        lemma_refactor_updates_set_weight(s, init, asset, k);
        lemma_refactor_step(r, us.last(), asset, t);
    }
}

proof fn lemma_refactor_updates_distinct(s: Seq<IndexComponent>, us: Seq<ComponentUpdate>, asset: u64)
    requires
        index_tokens_distinct(s),
    ensures
        refactor_updates_spec(s, us, asset) matches Ok(s1) ==> index_tokens_distinct(s1),
    decreases us.len(),
{
    if us.len() > 0 {
        lemma_refactor_updates_distinct(s, us.drop_last(), asset);
        if let Ok(r) = refactor_updates_spec(s, us.drop_last(), asset) {
            if refactor_update_spec(r, us.last(), asset) is Ok {
                lemma_refactor_step(r, us.last(), asset, us.last().token);
            }
        }
    }
}

/// An index refactor does what its updates say: after a successful
/// refactor, a token that an update adds is in the registry with the given
/// weight and asset, and a token that an update re-weights has, when it is
/// in the registry, the weight given, as long as no later update of the
/// same call names that token again.
pub proof fn lemma_index_refactor_sets_weights(s: Seq<IndexComponent>, us: Seq<ComponentUpdate>, asset: u64, k: int)
    requires
        index_tokens_distinct(s),
        refactor_result_spec(s, us, asset) is Ok,
        0 <= k < us.len(),
        !(us[k].action is Remove),
        forall|j: int| k < j < us.len() ==> (#[trigger] us[j]).token != us[k].token,
    ensures
        ({
            let s1 = refactor_result_spec(s, us, asset)->Ok_0;
            let t = us[k].token;
            &&& has_token(s1, t) ==> s1[position_of(s1, t)].weight == us[k].new_weight
            &&& us[k].action is Add ==> has_token(s1, t) && s1[position_of(s1, t)].asset == asset
        }),
{
    lemma_refactor_updates_set_weight(s, us, asset, k);
}

proof fn lemma_refactor_err_extends(s: Seq<IndexComponent>, us: Seq<ComponentUpdate>, k: int, asset: u64)
    requires
        0 <= k <= us.len(),
        refactor_updates_spec(s, us.subrange(0, k), asset) is Err,
    ensures
        refactor_updates_spec(s, us, asset) == refactor_updates_spec(s, us.subrange(0, k), asset),
        refactor_result_spec(s, us, asset) == refactor_updates_spec(s, us.subrange(0, k), asset),
    decreases us.len() - k,
{
    if k < us.len() {
        let next = us.subrange(0, k + 1);
        assert(next.drop_last() == us.subrange(0, k));
        lemma_refactor_err_extends(s, us, k + 1, asset);
    } else {
        assert(us.subrange(0, k) == us);
    }
}

} // verus!

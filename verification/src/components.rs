//! The component registry of an index fund: which tokens the index holds,
//! their target weights (in basis points), oracles, adapters and the
//! balances the index tracks for them, kept in registry order.

use vstd::prelude::*;
use crate::errors::IndexFundError;
use crate::fee::{calculate_fee_split, fee_split_spec};

verus! {

/// A component of the index.
#[derive(Debug, Clone, Copy, PartialEq, Eq, Structural)]
pub struct Component {
    /// Asset symbol of the component.
    pub asset: u64,
    /// Target weight in basis points (10_000 = 100%).
    pub weight: u128,
    /// Oracle contract pricing the component.
    pub oracle: u64,
    /// Name of the swap adapter used for the component.
    pub adapter: u64,
}

/// A registry entry: token, component data and tracked balance.
#[derive(Debug, Clone, Copy, PartialEq, Eq, Structural)]
pub struct ComponentEntry {
    pub token: u64,
    pub component: Component,
    pub balance: u128,
}

/// What a component update does.
#[derive(Debug, Clone, Copy, PartialEq, Eq, Structural)]
pub enum ComponentAction {
    Add,
    Remove,
    UpdateWeight,
    UpdateAdapter,
    UpdateOracle,
}

/// One change of the component set.
#[derive(Debug, Clone, Copy, PartialEq, Eq, Structural)]
pub struct ComponentUpdate {
    pub token: u64,
    pub action: ComponentAction,
    pub new_weight: Option<u128>,
    pub new_oracle: Option<u64>,
    pub new_adapter: Option<u64>,
}

/// The component registry, in registry order.
#[derive(Debug)]
pub struct ComponentBook {
    entries: Vec<ComponentEntry>,
}

/// No token appears twice.
pub open spec fn tokens_distinct(s: Seq<ComponentEntry>) -> bool {
    forall|i: int, j: int| 0 <= i < s.len() && 0 <= j < s.len() && i != j ==> s[i].token != s[j].token
}

pub open spec fn contains_token(s: Seq<ComponentEntry>, token: u64) -> bool {
    exists|i: int| 0 <= i < s.len() && s[i].token == token
}

/// The position of `token` in the registry (meaningful when present).
pub open spec fn index_of(s: Seq<ComponentEntry>, token: u64) -> int {
    choose|i: int| 0 <= i < s.len() && s[i].token == token
}

/// Sum of the weights of all entries.
pub open spec fn weight_sum(s: Seq<ComponentEntry>) -> int
    decreases s.len(),
{
    if s.len() == 0 { 0 } else { weight_sum(s.drop_last()) + s.last().component.weight }
}

/// A component with the fields that an update carries replaced.
pub open spec fn updated_component(c: Component, u: ComponentUpdate) -> Component {
    Component {
        asset: c.asset,
        weight: match u.new_weight { Some(w) => w, None => c.weight },
        oracle: match u.new_oracle { Some(o) => o, None => c.oracle },
        adapter: match u.new_adapter { Some(a) => a, None => c.adapter },
    }
}

/// Effect of one update: adding needs a new token and all three fields;
/// removing and updating need an existing token.
pub open spec fn apply_update_spec(s: Seq<ComponentEntry>, u: ComponentUpdate, asset: u64) -> Result<Seq<ComponentEntry>, IndexFundError> {
    match u.action {
        ComponentAction::Add => {
            if contains_token(s, u.token) {
                Err(IndexFundError::InvalidComponentAction)
            } else {
                match (u.new_weight, u.new_oracle, u.new_adapter) {
                    (Some(w), Some(o), Some(a)) => Ok(s.push(ComponentEntry {
                        token: u.token,
                        component: Component { asset, weight: w, oracle: o, adapter: a },
                        balance: 0,
                    })),
                    _ => Err(IndexFundError::InvalidComponentAction),
                }
            }
        },
        ComponentAction::Remove => {
            if !contains_token(s, u.token) {
                Err(IndexFundError::ComponentNotFound)
            } else {
                Ok(s.remove(index_of(s, u.token)))
            }
        },
        _ => {
            if !contains_token(s, u.token) {
                Err(IndexFundError::ComponentNotFound)
            } else {
                let i = index_of(s, u.token);
                Ok(s.update(i, ComponentEntry { component: updated_component(s[i].component, u), ..s[i] }))
            }
        },
    }
}

/// Effect of a sequence of updates, stopping at the first error.
pub open spec fn apply_all_spec(s: Seq<ComponentEntry>, us: Seq<ComponentUpdate>, asset: u64) -> Result<Seq<ComponentEntry>, IndexFundError>
    decreases us.len(),
{
    if us.len() == 0 {
        Ok(s)
    } else {
        match apply_all_spec(s, us.drop_last(), asset) {
            Ok(s1) => apply_update_spec(s1, us.last(), asset),
            Err(e) => Err(e),
        }
    }
}

/// Effect of a refactor: all updates, then the weights of a non-empty
/// registry must sum to 10_000.
pub open spec fn refactor_spec(s: Seq<ComponentEntry>, us: Seq<ComponentUpdate>, asset: u64) -> Result<Seq<ComponentEntry>, IndexFundError> {
    match apply_all_spec(s, us, asset) {
        Ok(s1) => if s1.len() == 0 || weight_sum(s1) == 10_000 { Ok(s1) } else { Err(IndexFundError::InvalidWeightSum) },
        Err(e) => Err(e),
    }
}

/// The refactor's weight total fits the `u128` sum of the contract.
pub open spec fn refactor_fits(s: Seq<ComponentEntry>, us: Seq<ComponentUpdate>, asset: u64) -> bool {
    match apply_all_spec(s, us, asset) {
        Ok(s1) => weight_sum(s1) <= u128::MAX,
        Err(_) => true,
    }
}

proof fn lemma_weight_sum_prefix(s: Seq<ComponentEntry>, k: int)
    requires
        0 <= k <= s.len(),
    ensures
        weight_sum(s.subrange(0, k)) <= weight_sum(s),
    decreases s.len() - k,
{
    if k < s.len() {
        lemma_weight_sum_prefix(s, k + 1);
        assert(s.subrange(0, k + 1).drop_last() =~= s.subrange(0, k));
    } else {
        assert(s.subrange(0, k) =~= s);
    }
}

proof fn lemma_apply_preserves_distinct(s: Seq<ComponentEntry>, u: ComponentUpdate, asset: u64)
    requires
        tokens_distinct(s),
    ensures
        apply_update_spec(s, u, asset) matches Ok(s1) ==> tokens_distinct(s1),
{
    match u.action {
        ComponentAction::Add => {},
        ComponentAction::Remove => {
            if contains_token(s, u.token) {
                let i = index_of(s, u.token);
                let s1 = s.remove(i);
                assert forall|a: int, b: int| 0 <= a < s1.len() && 0 <= b < s1.len() && a != b implies s1[a].token != s1[b].token by {
                    let a0 = if a < i { a } else { a + 1 };
                    let b0 = if b < i { b } else { b + 1 };
                    assert(s1[a] == s[a0]);
                    assert(s1[b] == s[b0]);
                }
            }
        },
        _ => {},
    }
}

proof fn lemma_index_of_unique(s: Seq<ComponentEntry>, t: u64, i: int)
    requires
        tokens_distinct(s),
        0 <= i < s.len(),
        s[i].token == t,
    ensures
        contains_token(s, t),
        index_of(s, t) == i,
{
    assert(contains_token(s, t));
    let j = index_of(s, t);
    if j != i {
        assert(s[j].token != s[i].token);
    }
}

/// An update that succeeds and is not a removal leaves its token in the
/// registry with every field it carries set.
proof fn lemma_update_sets_fields(r: Seq<ComponentEntry>, u: ComponentUpdate, asset: u64)
    requires
        tokens_distinct(r),
        apply_update_spec(r, u, asset) is Ok,
        !(u.action is Remove),
    ensures
        ({
            let r2 = apply_update_spec(r, u, asset)->Ok_0;
            &&& tokens_distinct(r2)
            &&& contains_token(r2, u.token)
            &&& (u.new_weight matches Some(w) ==> r2[index_of(r2, u.token)].component.weight == w)
            &&& (u.new_oracle matches Some(o) ==> r2[index_of(r2, u.token)].component.oracle == o)
            &&& (u.new_adapter matches Some(a) ==> r2[index_of(r2, u.token)].component.adapter == a)
        }),
{
    lemma_apply_preserves_distinct(r, u, asset);
    let r2 = apply_update_spec(r, u, asset)->Ok_0;
    match u.action {
        ComponentAction::Add => {
            lemma_index_of_unique(r2, u.token, r.len() as int);
        },
        ComponentAction::Remove => {},
        _ => {
            let i = index_of(r, u.token);
            lemma_index_of_unique(r2, u.token, i);
        },
    }
}

/// An update of another token that succeeds leaves a listed token listed,
/// with its component as it was.
proof fn lemma_update_keeps_others(r: Seq<ComponentEntry>, u: ComponentUpdate, asset: u64, t: u64)
    requires
        tokens_distinct(r),
        apply_update_spec(r, u, asset) is Ok,
        u.token != t,
        contains_token(r, t),
    ensures
        ({
            let r2 = apply_update_spec(r, u, asset)->Ok_0;
            &&& contains_token(r2, t)
            &&& r2[index_of(r2, t)].component == r[index_of(r, t)].component
        }),
{
    lemma_apply_preserves_distinct(r, u, asset);
    let r2 = apply_update_spec(r, u, asset)->Ok_0;
    let i = index_of(r, t);
    match u.action {
        ComponentAction::Add => {
            assert(r2[i] == r[i]);
            lemma_index_of_unique(r2, t, i);
        },
        ComponentAction::Remove => {
            let j = index_of(r, u.token);
            assert(i != j);
            let i2 = if i < j { i } else { i - 1 };
            assert(r2[i2] == r[i]);
            lemma_index_of_unique(r2, t, i2);
        },
        _ => {
            let j = index_of(r, u.token);
            assert(i != j);
            assert(r2[i] == r[i]);
            lemma_index_of_unique(r2, t, i);
        },
    }
}

proof fn lemma_apply_all_sets_fields(s: Seq<ComponentEntry>, us: Seq<ComponentUpdate>, asset: u64, k: int)
    requires
        tokens_distinct(s),
        apply_all_spec(s, us, asset) is Ok,
        0 <= k < us.len(),
        !(us[k].action is Remove),
        forall|j: int| k < j < us.len() ==> (#[trigger] us[j]).token != us[k].token,
    ensures
        ({
            let s1 = apply_all_spec(s, us, asset)->Ok_0;
            let t = us[k].token;
            &&& contains_token(s1, t)
            &&& (us[k].new_weight matches Some(w) ==> s1[index_of(s1, t)].component.weight == w)
            &&& (us[k].new_oracle matches Some(o) ==> s1[index_of(s1, t)].component.oracle == o)
            &&& (us[k].new_adapter matches Some(a) ==> s1[index_of(s1, t)].component.adapter == a)
        }),
    decreases us.len(),
{
    let init = us.drop_last();
    lemma_apply_all_distinct(s, init, asset);
    let prev = apply_all_spec(s, init, asset);
    assert(prev is Ok);
    let r = prev->Ok_0;
    if k == us.len() - 1 {
        lemma_update_sets_fields(r, us.last(), asset);
    } else {
        assert(init[k] == us[k]);
        assert forall|j: int| k < j < init.len() implies (#[trigger] init[j]).token != init[k].token by {
            assert(init[j] == us[j]);
        }
        lemma_apply_all_sets_fields(s, init, asset, k);
        assert(us.last() == us[us.len() - 1]);
        lemma_update_keeps_others(r, us.last(), asset, us[k].token);
    }
}

/// A refactor does what its updates say: after a successful refactor, a
/// token that an update adds or updates, and that no later update of the
/// same call names again, is in the registry with every field the update
/// carries (weight, oracle, adapter) set to the value given.
pub proof fn lemma_refactor_sets_named_fields(s: Seq<ComponentEntry>, us: Seq<ComponentUpdate>, asset: u64, k: int)
    requires
        tokens_distinct(s),
        refactor_spec(s, us, asset) is Ok,
        0 <= k < us.len(),
        !(us[k].action is Remove),
        forall|j: int| k < j < us.len() ==> (#[trigger] us[j]).token != us[k].token,
    ensures
        ({
            let s1 = refactor_spec(s, us, asset)->Ok_0;
            let t = us[k].token;
            &&& contains_token(s1, t)
            &&& (us[k].new_weight matches Some(w) ==> s1[index_of(s1, t)].component.weight == w)
            &&& (us[k].new_oracle matches Some(o) ==> s1[index_of(s1, t)].component.oracle == o)
            &&& (us[k].new_adapter matches Some(a) ==> s1[index_of(s1, t)].component.adapter == a)
        }),
{
    lemma_apply_all_sets_fields(s, us, asset, k);
}

proof fn lemma_apply_all_distinct(s: Seq<ComponentEntry>, us: Seq<ComponentUpdate>, asset: u64)
    requires
        tokens_distinct(s),
    ensures
        apply_all_spec(s, us, asset) matches Ok(s1) ==> tokens_distinct(s1),
    decreases us.len(),
{
    if us.len() > 0 {
        lemma_apply_all_distinct(s, us.drop_last(), asset);
        if let Ok(s1) = apply_all_spec(s, us.drop_last(), asset) {
            lemma_apply_preserves_distinct(s1, us.last(), asset);
        }
    }
}

fn find_token(v: &Vec<ComponentEntry>, token: u64) -> (r: Option<usize>)
    requires
        tokens_distinct(v@),
    ensures
        match r {
            Some(i) => contains_token(v@, token) && i == index_of(v@, token) && i < v@.len(),
            None => !contains_token(v@, token),
        },
{
    let mut i: usize = 0;
    while i < v.len()
        invariant
            i <= v@.len(),
            tokens_distinct(v@),
            forall|j: int| 0 <= j < i ==> v@[j].token != token,
        decreases v@.len() - i,
    {
        if v[i].token == token {
            proof {
                assert(contains_token(v@, token));
                let k = index_of(v@, token);
                assert(v@[k].token == token);
                if k != i as int {
                    assert(v@[k].token != v@[i as int].token);
                }
            }
            return Some(i);
        }
        i = i + 1;
    }
    None
}

fn apply_update(v: &mut Vec<ComponentEntry>, u: ComponentUpdate, asset: u64) -> (r: Result<(), IndexFundError>)
    requires
        tokens_distinct(old(v)@),
    ensures
        match apply_update_spec(old(v)@, u, asset) {
            Ok(s1) => r is Ok && final(v)@ == s1,
            Err(e) => r == Err::<(), IndexFundError>(e),
        },
{
    let found = find_token(v, u.token);
    match u.action {
        ComponentAction::Add => {
            if found.is_some() {
                return Err(IndexFundError::InvalidComponentAction);
            }
            match (u.new_weight, u.new_oracle, u.new_adapter) {
                (Some(w), Some(o), Some(a)) => {
                    v.push(ComponentEntry {
                        token: u.token,
                        component: Component { asset, weight: w, oracle: o, adapter: a },
                        balance: 0,
                    });
                    Ok(())
                },
                _ => Err(IndexFundError::InvalidComponentAction),
            }
        },
        ComponentAction::Remove => {
            match found {
                None => Err(IndexFundError::ComponentNotFound),
                Some(i) => {
                    v.remove(i);
                    Ok(())
                },
            }
        },
        _ => {
            match found {
                None => Err(IndexFundError::ComponentNotFound),
                Some(i) => {
                    let e = v[i];
                    let mut c = e.component;
                    if let Some(w) = u.new_weight {
                        c.weight = w;
                    }
                    if let Some(a) = u.new_adapter {
                        c.adapter = a;
                    }
                    if let Some(o) = u.new_oracle {
                        c.oracle = o;
                    }
                    v.set(i, ComponentEntry { component: c, ..e });
                    Ok(())
                },
            }
        },
    }
}

fn copy_entries(v: &Vec<ComponentEntry>) -> (r: Vec<ComponentEntry>)
    ensures
        r@ == v@,
{
    let mut r: Vec<ComponentEntry> = Vec::new();
    let mut i: usize = 0;
    while i < v.len()
        invariant
            i <= v@.len(),
            r@ == v@.subrange(0, i as int),
        decreases v@.len() - i,
    {
        r.push(v[i]);
        i = i + 1;
    }
    proof {
        assert(v@.subrange(0, i as int) =~= v@);
    }
    r
}

fn sum_weights(v: &Vec<ComponentEntry>) -> (r: u128)
    requires
        weight_sum(v@) <= u128::MAX,
    ensures
        r == weight_sum(v@),
{
    let mut total: u128 = 0;
    let mut i: usize = 0;
    while i < v.len()
        invariant
            i <= v@.len(),
            weight_sum(v@) <= u128::MAX,
            total == weight_sum(v@.subrange(0, i as int)),
        decreases v@.len() - i,
    {
        proof {
            assert(v@.subrange(0, i + 1).drop_last() =~= v@.subrange(0, i as int));
            lemma_weight_sum_prefix(v@, i + 1);
        }
        total = total + v[i].component.weight;
        i = i + 1;
    }
    proof {
        assert(v@.subrange(0, i as int) =~= v@);
    }
    total
}

impl View for ComponentBook {
    type V = Seq<ComponentEntry>;

    closed spec fn view(&self) -> Seq<ComponentEntry> {
        self.entries@
    }
}

impl ComponentBook {
    /// Every token is registered once.
    pub open spec fn wf(&self) -> bool {
        tokens_distinct(self@)
    }

    /// An empty registry.
    pub fn new() -> (b: ComponentBook)
        ensures
            b@ == Seq::<ComponentEntry>::empty(),
            b.wf(),
    {
        ComponentBook { entries: Vec::new() }
    }

    /// The registry entries, in registry order.
    pub fn entries(&self) -> (r: &Vec<ComponentEntry>)
        ensures
            r@ == self@,
    {
        &self.entries
    }

    /// Number of registered components.
    pub fn len(&self) -> (r: usize)
        ensures
            r == self@.len(),
    {
        self.entries.len()
    }

    /// The component registered for `token`, if any.
    pub fn get_component(&self, token: u64) -> (r: Option<Component>)
        requires
            self.wf(),
        ensures
            match r {
                Some(c) => contains_token(self@, token) && c == self@[index_of(self@, token)].component,
                None => !contains_token(self@, token),
            },
    {
        match find_token(&self.entries, token) {
            Some(i) => Some(self.entries[i].component),
            None => None,
        }
    }

    /// Tracked balance of a component; zero for unknown tokens.
    pub fn get_component_balance(&self, token: u64) -> (r: u128)
        requires
            self.wf(),
        ensures
            r == (if contains_token(self@, token) { self@[index_of(self@, token)].balance } else { 0 }),
    {
        match find_token(&self.entries, token) {
            Some(i) => self.entries[i].balance,
            None => 0,
        }
    }

    /// Stores a component: replaces the data of a registered token (its
    /// balance stays) or registers a new token with a zero balance.
    pub fn set_component(&mut self, token: u64, component: Component)
        requires
            old(self).wf(),
        ensures
            final(self).wf(),
            contains_token(old(self)@, token) ==> final(self)@ == old(self)@.update(index_of(old(self)@, token),
                ComponentEntry { component, ..old(self)@[index_of(old(self)@, token)] }),
            !contains_token(old(self)@, token) ==> final(self)@ == old(self)@.push(ComponentEntry { token, component, balance: 0 }),
    {
        match find_token(&self.entries, token) {
            Some(i) => {
                let e = self.entries[i];
                self.entries.set(i, ComponentEntry { component, ..e });
                proof {
                    assert forall|a: int, b: int| 0 <= a < self@.len() && 0 <= b < self@.len() && a != b implies self@[a].token != self@[b].token by {
                        assert(self@[a].token == old(self)@[a].token);
                        assert(self@[b].token == old(self)@[b].token);
                    }
                }
            },
            None => {
                self.entries.push(ComponentEntry { token, component, balance: 0 });
                proof {
                    let s0 = old(self)@;
                    assert forall|a: int, b: int| 0 <= a < self@.len() && 0 <= b < self@.len() && a != b implies self@[a].token != self@[b].token by {
                        if a < s0.len() && b < s0.len() {
                            assert(self@[a] == s0[a] && self@[b] == s0[b]);
                        } else if a < s0.len() {
                            assert(self@[a] == s0[a]);
                        } else {
                            assert(self@[b] == s0[b]);
                        }
                    }
                }
            },
        }
    }

    /// Sets the tracked balance of a registered component (unknown tokens
    /// are left alone).
    pub fn set_component_balance(&mut self, token: u64, balance: u128)
        requires
            old(self).wf(),
        ensures
            final(self).wf(),
            contains_token(old(self)@, token) ==> final(self)@ == old(self)@.update(index_of(old(self)@, token),
                ComponentEntry { balance, ..old(self)@[index_of(old(self)@, token)] }),
            !contains_token(old(self)@, token) ==> final(self)@ == old(self)@,
    {
        match find_token(&self.entries, token) {
            Some(i) => {
                let e = self.entries[i];
                self.entries.set(i, ComponentEntry { balance, ..e });
                proof {
                    assert forall|a: int, b: int| 0 <= a < self@.len() && 0 <= b < self@.len() && a != b implies self@[a].token != self@[b].token by {
                        assert(self@[a].token == old(self)@[a].token);
                        assert(self@[b].token == old(self)@[b].token);
                    }
                }
            },
            None => {},
        }
    }

    /// Applies component updates in order and then checks that the weights of
    /// a non-empty registry sum to exactly 10_000 bps. `asset` is the symbol
    /// given to newly added components. On any error the registry is left as
    /// it was.
    pub fn refactor(&mut self, updates: &Vec<ComponentUpdate>, asset: u64) -> (r: Result<(), IndexFundError>)
        requires
            old(self).wf(),
            refactor_fits(old(self)@, updates@, asset),
        ensures
            final(self).wf(),
            match refactor_spec(old(self)@, updates@, asset) {
                Ok(s1) => r is Ok && final(self)@ == s1,
                Err(e) => r == Err::<(), IndexFundError>(e) && final(self)@ == old(self)@,
            },
    {
        let ghost s0 = self@;
        let mut work = copy_entries(&self.entries);
        let mut i: usize = 0;
        proof {
            assert(updates@.subrange(0, 0) =~= Seq::<ComponentUpdate>::empty());
        }
        while i < updates.len()
            invariant
                i <= updates@.len(),
                s0 == self@,
                tokens_distinct(s0),
                tokens_distinct(work@),
                apply_all_spec(s0, updates@.subrange(0, i as int), asset) == Ok::<Seq<ComponentEntry>, IndexFundError>(work@),
            decreases updates@.len() - i,
        {
            proof {
                assert(updates@.subrange(0, i + 1).drop_last() =~= updates@.subrange(0, i as int));
                lemma_apply_preserves_distinct(work@, updates@[i as int], asset);
            }
            let res = apply_update(&mut work, updates[i], asset);
            if res.is_err() {
                proof {
                    lemma_apply_all_prefix_err(s0, updates@, (i + 1) as int, asset);
                }
                return res;
            }
            i = i + 1;
        }
        proof {
            assert(updates@.subrange(0, i as int) =~= updates@);
        }
        if work.len() > 0 {
            let total = sum_weights(&work);
            if total != 10_000 {
                return Err(IndexFundError::InvalidWeightSum);
            }
        }
        self.entries = work;
        Ok(())
    }
}


/// A trade for an adapter: sell `amount_in` of `token_in` for at least
/// `amount_out_min` of `token_out`, delivered to `to`.
#[derive(Debug, Clone, Copy, PartialEq, Eq, Structural)]
pub struct TradeParams {
    pub token_in: u64,
    pub token_out: u64,
    pub amount_in: u128,
    pub amount_out_min: u128,
    pub to: u64,
    pub asset: u64,
}

/// Live allocation of one component.
#[derive(Debug, Clone, Copy, PartialEq, Eq, Structural)]
pub struct ComponentAllocation {
    pub token: u64,
    pub component: Component,
    pub current_balance: u128,
    pub target_balance: u128,
    /// Share of the NAV held, in basis points.
    pub percentage_of_nav: u128,
}

/// One component paid out by a redemption, with the fees kept back.
#[derive(Debug, Clone, Copy, PartialEq, Eq, Structural)]
pub struct RedeemLine {
    pub token: u64,
    /// Net amount paid to the redeemer.
    pub payout: u128,
    /// Added to the token's accrued protocol fees.
    pub protocol_fee: u128,
    /// Added to the token's accrued manager fees.
    pub manager_fee: u128,
}

/// `amount` minus 5% slippage tolerance.
pub open spec fn min_out(amount: u128) -> u128 {
    ((amount * 95) / 100) as u128
}

/// The part of `amount` that a weight in bps stands for.
pub open spec fn weighted(amount: u128, weight: u128) -> u128 {
    ((amount * weight) / 10_000) as u128
}

/// Target balance of a component for a given NAV.
pub open spec fn target_balance(nav: u128, weight: u128) -> u128 {
    if nav > 0 { weighted(nav, weight) } else { 0 }
}

pub open spec fn allocation_spec(e: ComponentEntry, nav: u128) -> ComponentAllocation {
    ComponentAllocation {
        token: e.token,
        component: e.component,
        current_balance: e.balance,
        target_balance: target_balance(nav, e.component.weight),
        percentage_of_nav: if nav > 0 { ((e.balance * 10_000) / (nav as int)) as u128 } else { 0 },
    }
}

/// Trades that bring every component to its target for `nav`: buy the
/// shortfall with the quote token, sell the excess for it.
pub open spec fn rebalance_swaps_spec(s: Seq<ComponentEntry>, nav: u128, quote: u64, to: u64) -> Seq<TradeParams>
    decreases s.len(),
{
    if s.len() == 0 {
        Seq::empty()
    } else {
        let prev = rebalance_swaps_spec(s.drop_last(), nav, quote, to);
        let e = s.last();
        let t = target_balance(nav, e.component.weight);
        if t > e.balance {
            let amt = (t - e.balance) as u128;
            prev.push(TradeParams { token_in: quote, token_out: e.token, amount_in: amt, amount_out_min: min_out(amt), to, asset: e.component.asset })
        } else if t < e.balance {
            let amt = (e.balance - t) as u128;
            prev.push(TradeParams { token_in: e.token, token_out: quote, amount_in: amt, amount_out_min: min_out(amt), to, asset: e.component.asset })
        } else {
            prev
        }
    }
}

/// The trade amounts of a rebalance fit the `u128` arithmetic.
pub open spec fn rebalance_fits(s: Seq<ComponentEntry>, nav: u128) -> bool {
    forall|i: int| 0 <= i < s.len() ==> {
        let e = #[trigger] s[i];
        &&& nav * e.component.weight <= u128::MAX
        &&& (if target_balance(nav, e.component.weight) > e.balance {
                target_balance(nav, e.component.weight) - e.balance
            } else {
                e.balance - target_balance(nav, e.component.weight)
            }) * 95 <= u128::MAX
    }
}

/// Allocation of a deposit: for each component other than the deposited
/// token whose weighted share is positive, a buy of that share.
pub open spec fn swap_params_spec(s: Seq<ComponentEntry>, dep: u64, amount: u128, to: u64) -> Option<Seq<TradeParams>>
    decreases s.len(),
{
    if s.len() == 0 {
        Some(Seq::empty())
    } else {
        match swap_params_spec(s.drop_last(), dep, amount, to) {
            None => None,
            Some(prev) => {
                let e = s.last();
                let t = weighted(amount, e.component.weight);
                if t > 0 && e.token != dep {
                    if min_out(t) > 0 {
                        Some(prev.push(TradeParams { token_in: dep, token_out: e.token, amount_in: t, amount_out_min: min_out(t), to, asset: e.component.asset }))
                    } else {
                        None
                    }
                } else {
                    Some(prev)
                }
            },
        }
    }
}

/// The weighted shares of a deposit fit the `u128` arithmetic.
pub open spec fn deposit_fits(s: Seq<ComponentEntry>, amount: u128) -> bool {
    forall|i: int| 0 <= i < s.len() ==> {
        let e = #[trigger] s[i];
        &&& amount * e.component.weight <= u128::MAX
        &&& weighted(amount, e.component.weight) * 95 <= u128::MAX
    }
}

/// Swaps of a weight-based mint: like `swap_params_spec` but without the
/// minimum-output check.
pub open spec fn mint_swaps_spec(s: Seq<ComponentEntry>, dep: u64, amount: u128, to: u64) -> Seq<TradeParams>
    decreases s.len(),
{
    if s.len() == 0 {
        Seq::empty()
    } else {
        let prev = mint_swaps_spec(s.drop_last(), dep, amount, to);
        let e = s.last();
        let t = weighted(amount, e.component.weight);
        if t > 0 && e.token != dep {
            prev.push(TradeParams { token_in: dep, token_out: e.token, amount_in: t, amount_out_min: min_out(t), to, asset: e.component.asset })
        } else {
            prev
        }
    }
}

/// Entry after the direct part of a weight-based mint: the deposited token's
/// own component is credited its weighted share.
pub open spec fn direct_credit(e: ComponentEntry, dep: u64, amount: u128) -> ComponentEntry {
    let t = weighted(amount, e.component.weight);
    if t > 0 && e.token == dep { ComponentEntry { balance: (e.balance + t) as u128, ..e } } else { e }
}

/// Whether an entry takes a swap in a weight-based mint.
pub open spec fn takes_swap(e: ComponentEntry, dep: u64, amount: u128) -> bool {
    weighted(amount, e.component.weight) > 0 && e.token != dep
}

/// Number of entries before position `k` that take a swap.
pub open spec fn swap_rank(s: Seq<ComponentEntry>, k: int, dep: u64, amount: u128) -> int
    decreases k,
{
    if k <= 0 {
        0
    } else {
        swap_rank(s, k - 1, dep, amount) + if takes_swap(s[k - 1], dep, amount) { 1int } else { 0int }
    }
}

/// Entry after the swap results of a weight-based mint are credited: the
/// n-th swapping entry receives the n-th result, when there is one.
pub open spec fn swap_credit(s: Seq<ComponentEntry>, i: int, dep: u64, amount: u128, results: Seq<u128>) -> ComponentEntry {
    let e = s[i];
    let k = swap_rank(s, i, dep, amount);
    if takes_swap(e, dep, amount) && k < results.len() {
        ComponentEntry { balance: (e.balance + results[k]) as u128, ..e }
    } else {
        e
    }
}

/// Sum of the amounts sold in by a sequence of trades.
pub open spec fn trade_amount_total(ts: Seq<TradeParams>) -> int
    decreases ts.len(),
{
    if ts.len() == 0 { 0 } else { trade_amount_total(ts.drop_last()) + ts.last().amount_in }
}

/// What a weight-based mint credits directly: the weighted share of the
/// deposited token's own component.
pub open spec fn direct_credit_total(s: Seq<ComponentEntry>, dep: u64, amount: u128) -> int
    decreases s.len(),
{
    if s.len() == 0 { 0 } else {
        direct_credit_total(s.drop_last(), dep, amount)
            + if s.last().token == dep { weighted(amount, s.last().component.weight) as int } else { 0int }
    }
}

/// Sum of the weighted shares of `amount` over all components.
pub open spec fn allocation_total(s: Seq<ComponentEntry>, amount: u128) -> int
    decreases s.len(),
{
    if s.len() == 0 { 0 } else { allocation_total(s.drop_last(), amount) + weighted(amount, s.last().component.weight) }
}

/// A weight-based mint allocates each component's weighted share exactly
/// once: the amounts swapped in plus the direct credit are the sum of the
/// weighted shares.
pub proof fn lemma_mint_allocation_split(s: Seq<ComponentEntry>, dep: u64, amount: u128, to: u64)
    ensures
        trade_amount_total(mint_swaps_spec(s, dep, amount, to)) + direct_credit_total(s, dep, amount)
            == allocation_total(s, amount),
    decreases s.len(),
{
    if s.len() > 0 {
        lemma_mint_allocation_split(s.drop_last(), dep, amount, to);
        let prev = mint_swaps_spec(s.drop_last(), dep, amount, to);
        let e = s.last();
        let t = weighted(amount, e.component.weight);
        if t > 0 && e.token != dep {
            let x = TradeParams { token_in: dep, token_out: e.token, amount_in: t, amount_out_min: min_out(t), to, asset: e.component.asset };
            assert(prev.push(x).drop_last() =~= prev);
        }
    }
}

/// The weighted shares of `amount` never total more than `amount` times the
/// weight sum over 10_000 (each share is rounded down).
pub proof fn lemma_allocation_bounded(s: Seq<ComponentEntry>, amount: u128)
    requires
        deposit_fits(s, amount),
    ensures
        allocation_total(s, amount) * 10_000 <= amount * weight_sum(s),
        allocation_total(s, amount) >= 0,
    decreases s.len(),
{
    if s.len() > 0 {
        assert forall|i: int| 0 <= i < s.drop_last().len() implies {
            let e = #[trigger] s.drop_last()[i];
            &&& amount * e.component.weight <= u128::MAX
            &&& weighted(amount, e.component.weight) * 95 <= u128::MAX
        } by {
            assert(s.drop_last()[i] == s[i]);
        }
        lemma_allocation_bounded(s.drop_last(), amount);
        let w = s.last().component.weight as int;
        let a = amount as int;
        assert(s[s.len() - 1] == s.last());
        assert(a * w <= u128::MAX);
        assert((a * w) / 10_000 <= a * w) by (nonlinear_arith)
            requires a >= 0, w >= 0;
        let t = weighted(amount, s.last().component.weight) as int;
        assert(t == (a * w) / 10_000);
        assert(t * 10_000 <= a * w) by (nonlinear_arith)
            requires t == (a * w) / 10_000, a >= 0, w >= 0;
        assert(t >= 0) by (nonlinear_arith)
            requires t == (a * w) / 10_000, a >= 0, w >= 0;
        let ws = weight_sum(s.drop_last());
        assert(a * (ws + w) == a * ws + a * w) by (nonlinear_arith);
    }
}

/// Two registries whose entries have the same weights position by position
/// have the same weight sum.
pub proof fn lemma_weight_sum_same_weights(s: Seq<ComponentEntry>, t: Seq<ComponentEntry>)
    requires
        s.len() == t.len(),
        forall|i: int| 0 <= i < s.len() ==> (#[trigger] s[i]).component.weight == t[i].component.weight,
    ensures
        weight_sum(s) == weight_sum(t),
    decreases s.len(),
{
    if s.len() > 0 {
        let n = s.len() - 1;
        assert(s[n].component.weight == t[n].component.weight);
        assert forall|i: int| 0 <= i < s.drop_last().len() implies (#[trigger] s.drop_last()[i]).component.weight == t.drop_last()[i].component.weight by {
            assert(s[i].component.weight == t[i].component.weight);
        }
        lemma_weight_sum_same_weights(s.drop_last(), t.drop_last());
    }
}

/// Per-entry outcome of a redemption with the given ratio (bps of holdings).
pub open spec fn redeem_amount(e: ComponentEntry, ratio: u128) -> u128 {
    weighted(e.balance, ratio)
}

pub open spec fn redeem_line_spec(e: ComponentEntry, ratio: u128, p: u32, m: u32) -> RedeemLine {
    let a = redeem_amount(e, ratio);
    let (fee, protocol, manager) = fee_split_spec(a, p, m);
    RedeemLine {
        token: e.token,
        payout: if a >= fee { (a - fee) as u128 } else { 0 },
        protocol_fee: protocol,
        manager_fee: manager,
    }
}

pub open spec fn redeem_pays(e: ComponentEntry, ratio: u128) -> bool {
    e.balance > 0 && redeem_amount(e, ratio) > 0
}

pub open spec fn redeem_entry_spec(e: ComponentEntry, ratio: u128, p: u32, m: u32) -> ComponentEntry {
    if redeem_pays(e, ratio) {
        ComponentEntry { balance: (e.balance - redeem_line_spec(e, ratio, p, m).payout) as u128, ..e }
    } else {
        e
    }
}

pub open spec fn redeem_lines_spec(s: Seq<ComponentEntry>, ratio: u128, p: u32, m: u32) -> Seq<RedeemLine>
    decreases s.len(),
{
    if s.len() == 0 {
        Seq::empty()
    } else {
        let prev = redeem_lines_spec(s.drop_last(), ratio, p, m);
        if redeem_pays(s.last(), ratio) { prev.push(redeem_line_spec(s.last(), ratio, p, m)) } else { prev }
    }
}

proof fn lemma_swap_rank_step(s: Seq<ComponentEntry>, k: int, dep: u64, amount: u128)
    requires
        0 <= k,
    ensures
        swap_rank(s, k + 1, dep, amount) == swap_rank(s, k, dep, amount) + if takes_swap(s[k], dep, amount) { 1int } else { 0int },
        0 <= swap_rank(s, k, dep, amount) <= k,
    decreases k,
{
    if k > 0 {
        lemma_swap_rank_step(s, k - 1, dep, amount);
    }
}

impl ComponentBook {
    /// Live allocation of each component for the current NAV, in registry
    /// order: the target balance is the weighted NAV, the percentage is the
    /// balance's share of the NAV in basis points.
    pub fn get_component_allocation(&self, current_nav: u128) -> (r: Vec<ComponentAllocation>)
        requires
            forall|i: int| 0 <= i < self@.len() ==> current_nav * (#[trigger] self@[i]).component.weight <= u128::MAX
                && self@[i].balance * 10_000 <= u128::MAX,
        ensures
            r@.len() == self@.len(),
            forall|i: int| 0 <= i < self@.len() ==> #[trigger] r@[i] == allocation_spec(self@[i], current_nav),
    {
        let mut r: Vec<ComponentAllocation> = Vec::new();
        let mut i: usize = 0;
        while i < self.entries.len()
            invariant
                i <= self@.len(),
                r@.len() == i,
                forall|j: int| 0 <= j < self@.len() ==> current_nav * (#[trigger] self@[j]).component.weight <= u128::MAX
                    && self@[j].balance * 10_000 <= u128::MAX,
                forall|j: int| 0 <= j < i ==> #[trigger] r@[j] == allocation_spec(self@[j], current_nav),
            decreases self@.len() - i,
        {
            let e = self.entries[i];
            proof { assert(e == self@[i as int]); }
            let target = if current_nav > 0 { (current_nav * e.component.weight) / 10_000 } else { 0 };
            let pct = if current_nav > 0 { (e.balance * 10_000) / current_nav } else { 0 };
            r.push(ComponentAllocation {
                token: e.token,
                component: e.component,
                current_balance: e.balance,
                target_balance: target,
                percentage_of_nav: pct,
            });
            i = i + 1;
        }
        r
    }

    /// Trades that move every component's balance to its weighted share of
    /// `target_nav`: buys with the quote token where a component is short,
    /// sells for the quote token where it holds too much, each with 5%
    /// slippage tolerance.
    pub fn generate_rebalance_swaps(&self, target_nav: u128, quote_token: u64, to: u64) -> (r: Vec<TradeParams>)
        requires
            rebalance_fits(self@, target_nav),
        ensures
            r@ == rebalance_swaps_spec(self@, target_nav, quote_token, to),
    {
        let mut r: Vec<TradeParams> = Vec::new();
        let mut i: usize = 0;
        while i < self.entries.len()
            invariant
                i <= self@.len(),
                rebalance_fits(self@, target_nav),
                r@ == rebalance_swaps_spec(self@.subrange(0, i as int), target_nav, quote_token, to),
            decreases self@.len() - i,
        {
            proof {
                assert(self@.subrange(0, i + 1).drop_last() =~= self@.subrange(0, i as int));
            }
            let e = self.entries[i];
            proof { assert(e == self@[i as int]); }
            let target = if target_nav > 0 { (target_nav * e.component.weight) / 10_000 } else { 0 };
            if target > e.balance {
                let amt = target - e.balance;
                r.push(TradeParams { token_in: quote_token, token_out: e.token, amount_in: amt, amount_out_min: (amt * 95) / 100, to, asset: e.component.asset });
            } else if target < e.balance {
                let amt = e.balance - target;
                r.push(TradeParams { token_in: e.token, token_out: quote_token, amount_in: amt, amount_out_min: (amt * 95) / 100, to, asset: e.component.asset });
            }
            i = i + 1;
        }
        proof {
            assert(self@.subrange(0, i as int) =~= self@);
        }
        r
    }

    /// Buys that spread a deposit over the components by weight (skipping the
    /// deposited token itself and zero shares), with 5% slippage tolerance.
    /// A zero deposit, or a buy whose minimum output rounds to zero, is
    /// `PathIsEmpty`.
    pub fn generate_swap_params(&self, deposit_token: u64, deposit_amount: u128, to: u64) -> (r: Result<Vec<TradeParams>, IndexFundError>)
        requires
            deposit_fits(self@, deposit_amount),
        ensures
            deposit_amount == 0 ==> r == Err::<Vec<TradeParams>, IndexFundError>(IndexFundError::PathIsEmpty),
            deposit_amount > 0 ==> match swap_params_spec(self@, deposit_token, deposit_amount, to) {
                Some(v) => r is Ok && r->Ok_0@ == v,
                None => r == Err::<Vec<TradeParams>, IndexFundError>(IndexFundError::PathIsEmpty),
            },
    {
        if deposit_amount == 0 {
            return Err(IndexFundError::PathIsEmpty);
        }
        let mut r: Vec<TradeParams> = Vec::new();
        let mut i: usize = 0;
        while i < self.entries.len()
            invariant
                i <= self@.len(),
                deposit_fits(self@, deposit_amount),
                swap_params_spec(self@.subrange(0, i as int), deposit_token, deposit_amount, to) == Some(r@),
            decreases self@.len() - i,
        {
            proof {
                assert(self@.subrange(0, i + 1).drop_last() =~= self@.subrange(0, i as int));
            }
            let e = self.entries[i];
            proof { assert(e == self@[i as int]); }
            let target = (deposit_amount * e.component.weight) / 10_000;
            if target > 0 && e.token != deposit_token {
                let min_output = (target * 95) / 100;
                if min_output == 0 {
                    proof {
                        lemma_swap_params_none_prefix(self@, (i + 1) as int, deposit_token, deposit_amount, to);
                    }
                    return Err(IndexFundError::PathIsEmpty);
                }
                r.push(TradeParams { token_in: deposit_token, token_out: e.token, amount_in: target, amount_out_min: min_output, to, asset: e.component.asset });
            }
            i = i + 1;
        }
        proof {
            assert(self@.subrange(0, i as int) =~= self@);
        }
        Ok(r)
    }

    /// First half of a weight-based mint: credits the deposited token's own
    /// component with its weighted share and returns the buys needed for the
    /// other components. An empty registry is `ComponentNotFound`.
    pub fn plan_weight_based_mint(&mut self, deposited_token: u64, deposited_amount: u128, to: u64) -> (r: Result<Vec<TradeParams>, IndexFundError>)
        requires
            old(self).wf(),
            deposit_fits(old(self)@, deposited_amount),
            forall|i: int| 0 <= i < old(self)@.len() ==> (#[trigger] old(self)@[i]).balance + weighted(deposited_amount, old(self)@[i].component.weight) <= u128::MAX,
        ensures
            final(self).wf(),
            old(self)@.len() == 0 ==> r == Err::<Vec<TradeParams>, IndexFundError>(IndexFundError::ComponentNotFound) && final(self)@ == old(self)@,
            old(self)@.len() > 0 ==> {
                &&& r is Ok
                &&& r->Ok_0@ == mint_swaps_spec(old(self)@, deposited_token, deposited_amount, to)
                &&& final(self)@.len() == old(self)@.len()
                &&& forall|i: int| 0 <= i < old(self)@.len() ==> #[trigger] final(self)@[i] == direct_credit(old(self)@[i], deposited_token, deposited_amount)
            },
    {
        if self.entries.len() == 0 {
            return Err(IndexFundError::ComponentNotFound);
        }
        let ghost s0 = self@;
        let mut r: Vec<TradeParams> = Vec::new();
        let mut i: usize = 0;
        while i < self.entries.len()
            invariant
                i <= self@.len(),
                self@.len() == s0.len(),
                tokens_distinct(s0),
                deposit_fits(s0, deposited_amount),
                forall|j: int| 0 <= j < s0.len() ==> (#[trigger] s0[j]).balance + weighted(deposited_amount, s0[j].component.weight) <= u128::MAX,
                r@ == mint_swaps_spec(s0.subrange(0, i as int), deposited_token, deposited_amount, to),
                forall|j: int| 0 <= j < i ==> #[trigger] self@[j] == direct_credit(s0[j], deposited_token, deposited_amount),
                forall|j: int| i <= j < s0.len() ==> #[trigger] self@[j] == s0[j],
            decreases s0.len() - i,
        {
            proof {
                assert(s0.subrange(0, i + 1).drop_last() =~= s0.subrange(0, i as int));
            }
            let e = self.entries[i];
            let target = (deposited_amount * e.component.weight) / 10_000;
            if target > 0 {
                if e.token == deposited_token {
                    self.entries.set(i, ComponentEntry { balance: e.balance + target, ..e });
                } else {
                    r.push(TradeParams { token_in: deposited_token, token_out: e.token, amount_in: target, amount_out_min: (target * 95) / 100, to, asset: e.component.asset });
                }
            }
            i = i + 1;
        }
        proof {
            assert(s0.subrange(0, i as int) =~= s0);
            assert forall|a: int, b: int| 0 <= a < self@.len() && 0 <= b < self@.len() && a != b implies self@[a].token != self@[b].token by {
                assert(self@[a] == direct_credit(s0[a], deposited_token, deposited_amount));
                assert(self@[b] == direct_credit(s0[b], deposited_token, deposited_amount));
            }
        }
        Ok(r)
    }

    /// Second half of a weight-based mint: credits each component that took a
    /// swap with the amount that swap returned (the n-th swapping component
    /// gets the n-th result; missing results credit nothing).
    pub fn apply_weight_based_mint_results(&mut self, deposited_token: u64, deposited_amount: u128, results: &Vec<u128>)
        requires
            old(self).wf(),
            deposit_fits(old(self)@, deposited_amount),
            forall|i: int| 0 <= i < old(self)@.len() && #[trigger] takes_swap(old(self)@[i], deposited_token, deposited_amount)
                && swap_rank(old(self)@, i, deposited_token, deposited_amount) < results@.len() ==>
                old(self)@[i].balance + results@[swap_rank(old(self)@, i, deposited_token, deposited_amount)] <= u128::MAX,
        ensures
            final(self).wf(),
            final(self)@.len() == old(self)@.len(),
            forall|i: int| 0 <= i < old(self)@.len() ==> #[trigger] final(self)@[i] == swap_credit(old(self)@, i, deposited_token, deposited_amount, results@),
    {
        let ghost s0 = self@;
        let mut swap_index: usize = 0;
        let mut i: usize = 0;
        while i < self.entries.len()
            invariant
                i <= self@.len(),
                self@.len() == s0.len(),
                tokens_distinct(s0),
                deposit_fits(s0, deposited_amount),
                swap_index == swap_rank(s0, i as int, deposited_token, deposited_amount),
                forall|j: int| 0 <= j < s0.len() && #[trigger] takes_swap(s0[j], deposited_token, deposited_amount)
                    && swap_rank(s0, j, deposited_token, deposited_amount) < results@.len() ==>
                    s0[j].balance + results@[swap_rank(s0, j, deposited_token, deposited_amount)] <= u128::MAX,
                forall|j: int| 0 <= j < i ==> #[trigger] self@[j] == swap_credit(s0, j, deposited_token, deposited_amount, results@),
                forall|j: int| i <= j < s0.len() ==> #[trigger] self@[j] == s0[j],
            decreases s0.len() - i,
        {
            proof {
                lemma_swap_rank_step(s0, i as int, deposited_token, deposited_amount);
            }
            let e = self.entries[i];
            let target = (deposited_amount * e.component.weight) / 10_000;
            if target > 0 && e.token != deposited_token {
                if swap_index < results.len() {
                    let amount_received = results[swap_index];
                    proof {
                        assert(takes_swap(s0[i as int], deposited_token, deposited_amount));
                    }
                    self.entries.set(i, ComponentEntry { balance: e.balance + amount_received, ..e });
                }
                swap_index = swap_index + 1;
            }
            i = i + 1;
        }
        proof {
            assert forall|a: int, b: int| 0 <= a < self@.len() && 0 <= b < self@.len() && a != b implies self@[a].token != self@[b].token by {
                assert(self@[a] == swap_credit(s0, a, deposited_token, deposited_amount, results@));
                assert(self@[b] == swap_credit(s0, b, deposited_token, deposited_amount, results@));
            }
        }
    }

    /// Pays out a redemption: each component with a balance gives up `ratio`
    /// bps of it; of that amount the fee split for `(protocol_fee_bps,
    /// manager_fee_bps)` stays in the index, booked as its protocol and
    /// manager parts, and the rest is paid out. Returns one line per paying
    /// component, in registry order.
    pub fn redeem_components(&mut self, ratio: u128, protocol_fee_bps: u32, manager_fee_bps: u32) -> (r: Vec<RedeemLine>)
        requires
            old(self).wf(),
            ratio <= 10_000,
            forall|i: int| 0 <= i < old(self)@.len() ==> (#[trigger] old(self)@[i]).balance * ratio <= u128::MAX,
        ensures
            final(self).wf(),
            r@ == redeem_lines_spec(old(self)@, ratio, protocol_fee_bps, manager_fee_bps),
            final(self)@.len() == old(self)@.len(),
            forall|i: int| 0 <= i < old(self)@.len() ==> #[trigger] final(self)@[i] == redeem_entry_spec(old(self)@[i], ratio, protocol_fee_bps, manager_fee_bps),
    {
        let ghost s0 = self@;
        let mut r: Vec<RedeemLine> = Vec::new();
        let mut i: usize = 0;
        while i < self.entries.len()
            invariant
                i <= self@.len(),
                self@.len() == s0.len(),
                tokens_distinct(s0),
                ratio <= 10_000,
                forall|j: int| 0 <= j < s0.len() ==> (#[trigger] s0[j]).balance * ratio <= u128::MAX,
                r@ == redeem_lines_spec(s0.subrange(0, i as int), ratio, protocol_fee_bps, manager_fee_bps),
                forall|j: int| 0 <= j < i ==> #[trigger] self@[j] == redeem_entry_spec(s0[j], ratio, protocol_fee_bps, manager_fee_bps),
                forall|j: int| i <= j < s0.len() ==> #[trigger] self@[j] == s0[j],
            decreases s0.len() - i,
        {
            proof {
                assert(s0.subrange(0, i + 1).drop_last() =~= s0.subrange(0, i as int));
            }
            let e = self.entries[i];
            if e.balance > 0 {
                proof {
                    assert(e == s0[i as int]);
                    assert((e.balance * ratio) / 10_000 <= e.balance) by (nonlinear_arith)
                        requires ratio <= 10_000, e.balance >= 0;
                }
                let amount = (e.balance * ratio) / 10_000;
                if amount > 0 {
                    let (component_fee, protocol_fee, manager_fee) = calculate_fee_split(amount, protocol_fee_bps, manager_fee_bps);
                    let net = amount.saturating_sub(component_fee);
                    self.entries.set(i, ComponentEntry { balance: e.balance - net, ..e });
                    r.push(RedeemLine { token: e.token, payout: net, protocol_fee, manager_fee });
                }
            }
            i = i + 1;
        }
        proof {
            assert(s0.subrange(0, i as int) =~= s0);
            assert forall|a: int, b: int| 0 <= a < self@.len() && 0 <= b < self@.len() && a != b implies self@[a].token != self@[b].token by {
                assert(self@[a] == redeem_entry_spec(s0[a], ratio, protocol_fee_bps, manager_fee_bps));
                assert(self@[b] == redeem_entry_spec(s0[b], ratio, protocol_fee_bps, manager_fee_bps));
            }
        }
        r
    }
}

proof fn lemma_swap_params_none_prefix(s: Seq<ComponentEntry>, k: int, dep: u64, amount: u128, to: u64)
    requires
        0 <= k <= s.len(),
        swap_params_spec(s.subrange(0, k), dep, amount, to) is None,
    ensures
        swap_params_spec(s, dep, amount, to) is None,
    decreases s.len() - k,
{
    if k < s.len() {
        assert(s.subrange(0, k + 1).drop_last() =~= s.subrange(0, k));
        lemma_swap_params_none_prefix(s, k + 1, dep, amount, to);
    } else {
        assert(s.subrange(0, k) =~= s);
    }
}

/// After a successful refactor the registry's weights sum to exactly
/// 10_000 bps, unless the registry is empty, and no token is listed twice.
pub proof fn lemma_refactor_weights_complete(s: Seq<ComponentEntry>, us: Seq<ComponentUpdate>, asset: u64)
    requires
        tokens_distinct(s),
    ensures
        refactor_spec(s, us, asset) matches Ok(s1) ==> (s1.len() == 0 || weight_sum(s1) == 10_000) && tokens_distinct(s1),
{
    lemma_apply_all_distinct(s, us, asset);
}

proof fn lemma_apply_all_prefix_err(s: Seq<ComponentEntry>, us: Seq<ComponentUpdate>, k: int, asset: u64)
    requires
        0 <= k <= us.len(),
        apply_all_spec(s, us.subrange(0, k), asset) is Err,
    ensures
        apply_all_spec(s, us, asset) == apply_all_spec(s, us.subrange(0, k), asset),
    decreases us.len() - k,
{
    if k < us.len() {
        assert(us.subrange(0, k + 1).drop_last() =~= us.subrange(0, k));
        lemma_apply_all_prefix_err(s, us, k + 1, asset);
    } else {
        assert(us.subrange(0, k) =~= us);
    }
}

/// What a redemption takes from a component is split without loss: the
/// payout and the two fees add up to the redeemed amount when the fee rates
/// total at most 100%, and with a ratio of at most 100% the payout never
/// exceeds the component's balance.
pub proof fn lemma_redeem_line_conserves(e: ComponentEntry, ratio: u128, p: u32, m: u32)
    requires
        p + m <= 10_000,
        ratio <= 10_000,
    ensures
        redeem_line_spec(e, ratio, p, m).payout + redeem_line_spec(e, ratio, p, m).protocol_fee
            + redeem_line_spec(e, ratio, p, m).manager_fee == redeem_amount(e, ratio),
        redeem_line_spec(e, ratio, p, m).payout <= e.balance,
{
    let a = redeem_amount(e, ratio);
    crate::fee::lemma_fee_split_parts(a, p, m);
    let b = e.balance as int;
    let r = ratio as int;
    assert((b * r) / 10_000 <= b) by (nonlinear_arith)
        requires b >= 0, 0 <= r <= 10_000;
}

} // verus!

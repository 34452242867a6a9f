//! Privacy of an index: who may see what (viewer lists by access level),
//! the byte-wise XOR cipher used for viewer data, portfolio scores shown to
//! viewers, and the constraint checks of a private rebalance.

use vstd::prelude::*;
use crate::errors::IndexError;

verus! {

/// How much of the index a viewer may see.
#[derive(Debug, Clone, Copy, PartialEq, Eq, Structural)]
pub enum ViewerAccessLevel {
    Public,
    Investor,
    Authorized,
    Compliance,
    Emergency,
}

/// The viewer lists of an index.
#[derive(Debug, Clone)]
pub struct PrivacyConfig {
    pub authorized_viewers: Vec<u64>,
    pub compliance_authorities: Vec<u64>,
    pub emergency_access: Vec<u64>,
}

/// How a private component discloses its weight.
#[derive(Debug, Clone, Copy, PartialEq, Eq, Structural)]
pub enum ComponentPrivacyMode {
    /// The weight is disclosed.
    Public(u128),
    /// Only a commitment to the weight exists.
    Private,
    /// The weight is encrypted for authorized viewers.
    Authorized,
}

/// Largest weight a component may have after a private rebalance (50%).
pub const MAX_INDIVIDUAL_WEIGHT: u128 = 5_000;

/// Largest weight change per component in a private rebalance (10%).
pub const MAX_CHANGE_PER_COMPONENT: u128 = 1_000;

/// Predicate "is not `x`".
pub open spec fn other_than(x: u64) -> spec_fn(u64) -> bool {
    |a: u64| a != x
}

/// The list without any occurrence of `x`, order kept.
pub fn without(v: &Vec<u64>, x: u64) -> (r: Vec<u64>)
    ensures
        r@ == v@.filter(other_than(x)),
{
    let mut out: Vec<u64> = Vec::new();
    let mut i: usize = 0;
    while i < v.len()
        invariant
            0 <= i <= v@.len(),
            out@ == v@.subrange(0, i as int).filter(other_than(x)),
        decreases v@.len() - i,
    {
        let a = v[i];
        proof {
            let pre = v@.subrange(0, i as int);
            assert(v@.subrange(0, i + 1) == pre.push(a));
            pre.lemma_filter_push(a, other_than(x));
        }
        if a != x {
            out.push(a);
        }
        i = i + 1;
    }
    proof {
        assert(v@.subrange(0, v@.len() as int) == v@);
    }
    out
}

/// Viewer lists after removing `viewer`: it leaves the authorized and
/// compliance lists, and the emergency list unless it is that list's only
/// entry.
pub open spec fn lists_without_spec(c: PrivacyConfig, viewer: u64) -> (Seq<u64>, Seq<u64>, Seq<u64>) {
    (c.authorized_viewers@.filter(other_than(viewer)),
     c.compliance_authorities@.filter(other_than(viewer)),
     if c.emergency_access@.len() > 1 { c.emergency_access@.filter(other_than(viewer)) } else { c.emergency_access@ })
}

pub open spec fn lists_of(c: PrivacyConfig) -> (Seq<u64>, Seq<u64>, Seq<u64>) {
    (c.authorized_viewers@, c.compliance_authorities@, c.emergency_access@)
}

/// Removes a viewer from every list (see `lists_without_spec`).
pub fn remove_viewer_from_all_lists(config: &mut PrivacyConfig, viewer: u64)
    ensures
        lists_of(*final(config)) == lists_without_spec(*old(config), viewer),
{
    config.authorized_viewers = without(&config.authorized_viewers, viewer);
    config.compliance_authorities = without(&config.compliance_authorities, viewer);
    if config.emergency_access.len() > 1 {
        config.emergency_access = without(&config.emergency_access, viewer);
    }
}

/// Viewer lists of a new index: the given authorized viewers and
/// compliance authorities, with the admin as the only emergency viewer.
pub fn initialize_privacy_config(admin: u64, authorized_viewers: Vec<u64>, compliance_authorities: Vec<u64>) -> (r: PrivacyConfig)
    ensures
        lists_of(r) == (authorized_viewers@, compliance_authorities@, seq![admin]),
{
    let emergency_access: Vec<u64> = vec![admin];
    PrivacyConfig { authorized_viewers, compliance_authorities, emergency_access }
}

/// Viewer lists after granting `viewer` an access level: the viewer is
/// first removed everywhere, then appended to the list of its level (public
/// and investor access are not stored).
pub open spec fn add_viewer_spec(c: PrivacyConfig, viewer: u64, level: ViewerAccessLevel) -> (Seq<u64>, Seq<u64>, Seq<u64>) {
    let (a, co, em) = lists_without_spec(c, viewer);
    match level {
        ViewerAccessLevel::Authorized => (a.push(viewer), co, em),
        ViewerAccessLevel::Compliance => (a, co.push(viewer), em),
        ViewerAccessLevel::Emergency => (a, co, em.push(viewer)),
        _ => (a, co, em),
    }
}

/// Grants `viewer` an access level (see `add_viewer_spec`).
pub fn add_authorized_viewer_impl(config: &mut PrivacyConfig, viewer: u64, access_level: ViewerAccessLevel)
    ensures
        lists_of(*final(config)) == add_viewer_spec(*old(config), viewer, access_level),
{
    remove_viewer_from_all_lists(config, viewer);
    match access_level {
        ViewerAccessLevel::Authorized => config.authorized_viewers.push(viewer),
        ViewerAccessLevel::Compliance => config.compliance_authorities.push(viewer),
        ViewerAccessLevel::Emergency => config.emergency_access.push(viewer),
        ViewerAccessLevel::Public | ViewerAccessLevel::Investor => {},
    }
}

/// Removes a viewer's stored access.
pub fn remove_authorized_viewer_impl(config: &mut PrivacyConfig, viewer: u64)
    ensures
        lists_of(*final(config)) == lists_without_spec(*old(config), viewer),
{
    remove_viewer_from_all_lists(config, viewer);
}

/// Whether `viewer` is on one of the three lists.
pub open spec fn is_listed(c: PrivacyConfig, viewer: u64) -> bool {
    c.authorized_viewers@.contains(viewer) || c.compliance_authorities@.contains(viewer) || c.emergency_access@.contains(viewer)
}

fn list_contains(v: &Vec<u64>, x: u64) -> (r: bool)
    ensures
        r == v@.contains(x),
{
    let mut i: usize = 0;
    while i < v.len()
        invariant
            0 <= i <= v@.len(),
            forall|j: int| 0 <= j < i ==> v@[j] != x,
        decreases v@.len() - i,
    {
        if v[i] == x {
            return true;
        }
        i = i + 1;
    }
    false
}

/// Byte `i` of data XOR-ed with the key, cycled.
pub open spec fn xor_byte(data: Seq<u8>, key: Seq<u8>, i: int) -> u8 {
    data[i] ^ key[i % key.len() as int]
}

/// Data XOR-ed with a cycled key.
pub open spec fn xor_spec(data: Seq<u8>, key: Seq<u8>) -> Seq<u8> {
    Seq::new(data.len(), |i: int| xor_byte(data, key, i))
}

/// XORs data with a cycled key: the cipher used both ways.
pub fn xor_with_key(data: &Vec<u8>, key: &Vec<u8>) -> (r: Vec<u8>)
    requires
        key@.len() > 0,
        data@.len() <= u32::MAX,
        key@.len() <= u32::MAX,
    ensures
        r@ == xor_spec(data@, key@),
{
    let mut out: Vec<u8> = Vec::new();
    let mut i: usize = 0;
    while i < data.len()
        invariant
            0 <= i <= data@.len(),
            key@.len() > 0,
            out@.len() == i,
            forall|j: int| 0 <= j < i ==> #[trigger] out@[j] == xor_byte(data@, key@, j),
        decreases data@.len() - i,
    {
        let key_byte = key[i % key.len()];
        out.push(data[i] ^ key_byte);
        i = i + 1;
    }
    proof {
        assert(out@ =~= xor_spec(data@, key@));
    }
    out
}

/// Data encrypted for a viewer with the viewer's key.
pub fn encrypt_for_viewer_impl(data: &Vec<u8>, viewer_key: &Vec<u8>) -> (r: Vec<u8>)
    requires
        viewer_key@.len() > 0,
        data@.len() <= u32::MAX,
        viewer_key@.len() <= u32::MAX,
    ensures
        r@ == xor_spec(data@, viewer_key@),
{
    xor_with_key(data, viewer_key)
}

/// Data decrypted for a viewer: only a listed viewer, and only when a key
/// exists, gets the data back.
pub fn decrypt_for_viewer_impl(config: &PrivacyConfig, viewer: u64, encrypted_data: &Vec<u8>, viewer_key: Option<&Vec<u8>>)
    -> (r: Option<Vec<u8>>)
    requires
        viewer_key matches Some(k) ==> k@.len() > 0 && k@.len() <= u32::MAX,
        encrypted_data@.len() <= u32::MAX,
    ensures
        r is Some <==> (is_listed(*config, viewer) && viewer_key is Some),
        r matches Some(d) ==> d@ == xor_spec(encrypted_data@, viewer_key->Some_0@),
{
    if !list_contains(&config.authorized_viewers, viewer)
        && !list_contains(&config.compliance_authorities, viewer)
        && !list_contains(&config.emergency_access, viewer) {
        return None;
    }
    match viewer_key {
        Some(k) => Some(xor_with_key(encrypted_data, k)),
        None => None,
    }
}

/// Decrypting what was encrypted with the same key gives the data back, and
/// encryption keeps the length.
pub proof fn lemma_decrypt_encrypt(data: Seq<u8>, key: Seq<u8>)
    requires
        key.len() > 0,
    ensures
        xor_spec(xor_spec(data, key), key) == data,
        xor_spec(data, key).len() == data.len(),
{
    let enc = xor_spec(data, key);
    assert forall|i: int| 0 <= i < data.len() implies #[trigger] xor_spec(enc, key)[i] == data[i] by {
        let b = data[i];
        let k = key[i % key.len() as int];
        assert((b ^ k) ^ k == b) by (bit_vector);
    }
    assert(xor_spec(enc, key) =~= data);
}

/// A removed viewer is on neither the authorized nor the compliance list,
/// and not on the emergency list unless it was that list's only entry.
pub proof fn lemma_removed_viewer_unlisted(c: PrivacyConfig, viewer: u64)
    ensures
        !lists_without_spec(c, viewer).0.contains(viewer),
        !lists_without_spec(c, viewer).1.contains(viewer),
        c.emergency_access@.len() > 1 ==> !lists_without_spec(c, viewer).2.contains(viewer),
{
    broadcast use vstd::seq_lib::group_filter_ensures;
    let (a, co, em) = lists_without_spec(c, viewer);
    if a.contains(viewer) {
        let i = choose|i: int| 0 <= i < a.len() && a[i] == viewer;
        assert(other_than(viewer)(a[i]));
    }
    if co.contains(viewer) {
        let i = choose|i: int| 0 <= i < co.len() && co[i] == viewer;
        assert(other_than(viewer)(co[i]));
    }
    if c.emergency_access@.len() > 1 && em.contains(viewer) {
        let i = choose|i: int| 0 <= i < em.len() && em[i] == viewer;
        assert(other_than(viewer)(em[i]));
    }
}

/// Diversification score: ten points per asset, at most 100.
pub fn calculate_diversification_score(asset_count: u32) -> (r: u32)
    ensures
        r == (if asset_count >= 10 { 100 } else { asset_count * 10 }),
{
    if asset_count >= 10 { 100 } else { asset_count * 10 }
}

/// Risk score: what diversification leaves of 100.
pub fn calculate_risk_score(asset_count: u32) -> (r: u32)
    ensures
        r == 100 - (if asset_count >= 10 { 100 } else { asset_count * 10 }),
{
    100 - calculate_diversification_score(asset_count)
}

/// Number of assets held privately and publicly.
pub fn count_total_assets(private_count: u32, public_count: u32) -> (r: u32)
    requires
        private_count + public_count <= u32::MAX,
    ensures
        r == private_count + public_count,
{
    private_count + public_count
}

/// Sum of a list of weights.
pub open spec fn weights_sum(s: Seq<u128>) -> int
    decreases s.len(),
{
    if s.len() == 0 { 0 } else { weights_sum(s.drop_last()) + s.last() }
}

pub open spec fn abs_diff(a: u128, b: u128) -> int {
    if a > b { a - b } else { b - a }
}

/// The constraints of a private rebalance: equal lengths, new weights
/// summing to 10_000, each new weight positive and at most the maximum, and
/// no weight moving by more than the maximum change.
pub open spec fn rebalancing_constraints_spec(old: Seq<u128>, new: Seq<u128>, max_individual_weight: u128,
    max_change_per_component: u128) -> bool {
    &&& old.len() == new.len()
    &&& weights_sum(new) == 10_000
    &&& forall|i: int| 0 <= i < new.len() ==> 0 < #[trigger] new[i] <= max_individual_weight
    &&& forall|i: int| 0 <= i < new.len() ==> abs_diff(old[i], #[trigger] new[i]) <= max_change_per_component
}

proof fn lemma_weights_sum_prefix(s: Seq<u128>, k: int)
    requires
        0 <= k <= s.len(),
    ensures
        weights_sum(s.subrange(0, k)) <= weights_sum(s),
    decreases s.len(),
{
    if k < s.len() {
        assert(s.drop_last().subrange(0, k) == s.subrange(0, k));
        lemma_weights_sum_prefix(s.drop_last(), k);
    } else {
        assert(s.subrange(0, k) == s);
    }
}

/// Checks the constraints of a private rebalance.
pub fn verify_rebalancing_constraints(old_weights: &Vec<u128>, new_weights: &Vec<u128>, max_individual_weight: u128,
    max_change_per_component: u128) -> (r: bool)
    requires
        old_weights@.len() == new_weights@.len() ==> weights_sum(new_weights@) <= u128::MAX,
    ensures
        r == rebalancing_constraints_spec(old_weights@, new_weights@, max_individual_weight, max_change_per_component),
{
    if old_weights.len() != new_weights.len() {
        return false;
    }
    let mut total_weight: u128 = 0;
    let mut i: usize = 0;
    while i < new_weights.len()
        invariant
            0 <= i <= new_weights@.len(),
            weights_sum(new_weights@) <= u128::MAX,
            total_weight == weights_sum(new_weights@.subrange(0, i as int)),
        decreases new_weights@.len() - i,
    {
        proof {
            let post = new_weights@.subrange(0, i + 1);
            assert(post.drop_last() == new_weights@.subrange(0, i as int));
            lemma_weights_sum_prefix(new_weights@, i + 1);
        }
        total_weight = total_weight + new_weights[i];
        i = i + 1;
    }
    proof {
        assert(new_weights@.subrange(0, new_weights@.len() as int) == new_weights@);
    }
    if total_weight != 10_000 {
        return false;
    }
    let mut j: usize = 0;
    while j < old_weights.len()
        invariant
            0 <= j <= old_weights@.len(),
            old_weights@.len() == new_weights@.len(),
            forall|k: int| 0 <= k < j ==> 0 < #[trigger] new_weights@[k] <= max_individual_weight,
            forall|k: int| 0 <= k < j ==> abs_diff(old_weights@[k], #[trigger] new_weights@[k]) <= max_change_per_component,
        decreases old_weights@.len() - j,
    {
        let old_weight = old_weights[j];
        let new_weight = new_weights[j];
        if new_weight > max_individual_weight || new_weight == 0 {
            return false;
        }
        let weight_change = if new_weight > old_weight { new_weight - old_weight } else { old_weight - new_weight };
        if weight_change > max_change_per_component {
            return false;
        }
        j = j + 1;
    }
    true
}

/// Weights disclosed by the new components, or why they cannot be checked.
pub open spec fn extract_weights_spec(modes: Seq<ComponentPrivacyMode>) -> Result<Seq<u128>, IndexError>
    decreases modes.len(),
{
    if modes.len() == 0 {
        Ok(Seq::empty())
    } else {
        match extract_weights_spec(modes.drop_last()) {
            Err(e) => Err(e),
            Ok(ws) => match modes.last() {
                ComponentPrivacyMode::Public(w) => Ok(ws.push(w)),
                ComponentPrivacyMode::Private => Err(IndexError::PrivateConstraintVerificationNotSupported),
                ComponentPrivacyMode::Authorized => Err(IndexError::AuthorizedConstraintVerificationNotSupported),
            },
        }
    }
}

/// Old and new weights of a private rebalance; only disclosed weights can
/// be checked, and the old weight of each is taken to be the new one.
pub fn extract_weights_from_commitments(modes: &Vec<ComponentPrivacyMode>) -> (r: Result<(Vec<u128>, Vec<u128>), IndexError>)
    ensures
        match extract_weights_spec(modes@) {
            Ok(ws) => r is Ok && r->Ok_0.0@ == ws && r->Ok_0.1@ == ws,
            Err(e) => r == Err::<(Vec<u128>, Vec<u128>), IndexError>(e),
        },
{
    let mut old_weights: Vec<u128> = Vec::new();
    let mut new_weights: Vec<u128> = Vec::new();
    let mut i: usize = 0;
    while i < modes.len()
        invariant
            0 <= i <= modes@.len(),
            extract_weights_spec(modes@.subrange(0, i as int)) == Ok::<Seq<u128>, IndexError>(new_weights@),
            old_weights@ == new_weights@,
        decreases modes@.len() - i,
    {
        let m = modes[i];
        proof {
            let post = modes@.subrange(0, i + 1);
            assert(post.drop_last() == modes@.subrange(0, i as int));
            assert(post.last() == m);
        }
        match m {
            ComponentPrivacyMode::Public(w) => {
                new_weights.push(w);
                old_weights.push(w);
            },
            ComponentPrivacyMode::Private => {
                proof { lemma_extract_err_extends(modes@, i + 1); }
                return Err(IndexError::PrivateConstraintVerificationNotSupported);
            },
            ComponentPrivacyMode::Authorized => {
                proof { lemma_extract_err_extends(modes@, i + 1); }
                return Err(IndexError::AuthorizedConstraintVerificationNotSupported);
            },
        }
        i = i + 1;
    }
    proof {
        assert(modes@.subrange(0, modes@.len() as int) == modes@);
    }
    Ok((old_weights, new_weights))
}

proof fn lemma_extract_err_extends(modes: Seq<ComponentPrivacyMode>, k: int)
    requires
        0 <= k <= modes.len(),
        extract_weights_spec(modes.subrange(0, k)) is Err,
    ensures
        extract_weights_spec(modes) == extract_weights_spec(modes.subrange(0, k)),
    decreases modes.len() - k,
{
    if k < modes.len() {
        let next = modes.subrange(0, k + 1);
        assert(next.drop_last() == modes.subrange(0, k));
        lemma_extract_err_extends(modes, k + 1);
    } else {
        assert(modes.subrange(0, k) == modes);
    }
}

/// Structure check of a commitment proof: one old commitment per current
/// private component and as many new commitments as old ones.
pub fn verify_commitment_proof_integrity(current_components: usize, old_commitments: usize, new_commitments: usize)
    -> (r: Result<(), IndexError>)
    ensures
        r == (if old_commitments != current_components || new_commitments != old_commitments {
            Err::<(), IndexError>(IndexError::InvalidCommitmentProof)
        } else {
            Ok(())
        }),
{
    if old_commitments != current_components {
        return Err(IndexError::InvalidCommitmentProof);
    }
    if new_commitments != old_commitments {
        return Err(IndexError::InvalidCommitmentProof);
    }
    Ok(())
}

/// Who may rebalance privately: the admin of a public index, the admin or
/// a rebalance authority of a private one.
pub fn verify_private_rebalancing_authorization(is_public: bool, is_admin: bool, is_authority: bool) -> (r: Result<(), IndexError>)
    ensures
        r == (if is_public {
            if is_admin { Ok::<(), IndexError>(()) } else { Err(IndexError::PublicRebalanceRequiresProposal) }
        } else {
            if is_admin || is_authority { Ok::<(), IndexError>(()) } else { Err(IndexError::UnauthorizedRebalance) }
        }),
{
    if is_public {
        if !is_admin {
            return Err(IndexError::PublicRebalanceRequiresProposal);
        }
    } else {
        if !is_admin && !is_authority {
            return Err(IndexError::UnauthorizedRebalance);
        }
    }
    Ok(())
}

/// Checks of a private rebalance in order: the proof's structure, the
/// disclosed weights, and the weight constraints.
pub open spec fn private_rebalance_spec(current: usize, old_c: usize, new_c: usize, modes: Seq<ComponentPrivacyMode>) -> Result<(), IndexError> {
    if old_c != current || new_c != old_c {
        Err(IndexError::InvalidCommitmentProof)
    } else {
        match extract_weights_spec(modes) {
            Err(e) => Err(e),
            Ok(ws) => if rebalancing_constraints_spec(ws, ws, MAX_INDIVIDUAL_WEIGHT, MAX_CHANGE_PER_COMPONENT) {
                Ok(())
            } else {
                Err(IndexError::RebalancingConstraintsViolated)
            },
        }
    }
}

/// Runs the checks of a private rebalance (see `private_rebalance_spec`).
pub fn execute_private_rebalancing(current_components: usize, old_commitments: usize, new_commitments: usize,
    modes: &Vec<ComponentPrivacyMode>) -> (r: Result<(), IndexError>)
    requires
        extract_weights_spec(modes@) matches Ok(ws) ==> weights_sum(ws) <= u128::MAX,
    ensures
        r == private_rebalance_spec(current_components, old_commitments, new_commitments, modes@),
{
    match verify_commitment_proof_integrity(current_components, old_commitments, new_commitments) {
        Ok(()) => {},
        Err(e) => return Err(e),
    }
    let (old_weights, new_weights) = match extract_weights_from_commitments(modes) {
        Ok(w) => w,
        Err(e) => return Err(e),
    };
    if !verify_rebalancing_constraints(&old_weights, &new_weights, MAX_INDIVIDUAL_WEIGHT, MAX_CHANGE_PER_COMPONENT) {
        return Err(IndexError::RebalancingConstraintsViolated);
    }
    Ok(())
}

/// An asset of the index as viewers see it: private components first, then
/// public ones.
#[derive(Debug, Clone, Copy, PartialEq, Eq, Structural)]
pub struct HeldAsset {
    pub asset: u64,
    /// Tracked balance, when recorded.
    pub balance: Option<u128>,
    /// Target weight; only public components disclose it.
    pub weight: u128,
    pub is_private: bool,
}

/// Aggregate figures shown without component detail.
#[derive(Debug, Clone, Copy, PartialEq, Eq, Structural)]
pub struct AggregateMetrics {
    pub asset_count: u32,
    pub total_value: u128,
    pub diversification_score: u32,
}

/// Performance figures of the portfolio.
#[derive(Debug, Clone, Copy, PartialEq, Eq, Structural)]
pub struct PerformanceMetrics {
    pub total_return_bps: u32,
    pub annualized_return_bps: u32,
    pub sharpe_ratio: u32,
}

/// What a viewer sees of the components.
#[derive(Debug, Clone)]
pub enum ComponentView {
    Aggregate(AggregateMetrics),
    AssetsOnly(Vec<u64>),
}

/// What a viewer sees of the NAV.
#[derive(Debug, Clone)]
pub enum NavResponse {
    Detailed { current_nav: u128, component_values: Vec<(u64, u128)>, performance: PerformanceMetrics },
    Aggregate(u128),
}

/// Portfolio summary for a viewer.
#[derive(Debug, Clone)]
pub struct PortfolioSummary {
    pub total_value: u128,
    pub asset_count: u32,
    pub performance: PerformanceMetrics,
    pub risk_score: u32,
    /// The private components, for privileged viewers only.
    pub components: Option<Vec<u64>>,
}

/// Whether an access level sees component detail.
pub open spec fn privileged(level: ViewerAccessLevel) -> bool {
    level is Emergency || level is Compliance || level is Authorized
}

/// Sum of the recorded balances.
pub open spec fn portfolio_value_spec(s: Seq<HeldAsset>) -> int
    decreases s.len(),
{
    if s.len() == 0 {
        0
    } else {
        portfolio_value_spec(s.drop_last()) + match s.last().balance { Some(b) => b as int, None => 0int }
    }
}

pub open spec fn diversification_spec(count: u32) -> u32 {
    if count >= 10 { 100 } else { (count * 10) as u32 }
}

pub open spec fn aggregate_spec(s: Seq<HeldAsset>) -> AggregateMetrics {
    AggregateMetrics {
        asset_count: s.len() as u32,
        total_value: portfolio_value_spec(s) as u128,
        diversification_score: diversification_spec(s.len() as u32),
    }
}

/// The holdings' figures fit the contract's arithmetic.
pub open spec fn holdings_fit(s: Seq<HeldAsset>) -> bool {
    s.len() <= u32::MAX && portfolio_value_spec(s) <= u128::MAX
}

/// The assets in order.
pub open spec fn assets_of(s: Seq<HeldAsset>) -> Seq<u64> {
    s.map_values(|h: HeldAsset| h.asset)
}

/// The assets with a recorded balance and that balance, in order.
pub open spec fn component_values_spec(s: Seq<HeldAsset>) -> Seq<(u64, u128)>
    decreases s.len(),
{
    if s.len() == 0 {
        Seq::empty()
    } else {
        let prev = component_values_spec(s.drop_last());
        match s.last().balance { Some(b) => prev.push((s.last().asset, b)), None => prev }
    }
}

/// The private assets, in order.
pub open spec fn private_assets_spec(s: Seq<HeldAsset>) -> Seq<u64>
    decreases s.len(),
{
    if s.len() == 0 {
        Seq::empty()
    } else {
        let prev = private_assets_spec(s.drop_last());
        if s.last().is_private { prev.push(s.last().asset) } else { prev }
    }
}

proof fn lemma_portfolio_value_prefix(s: Seq<HeldAsset>, k: int)
    requires
        0 <= k <= s.len(),
    ensures
        portfolio_value_spec(s.subrange(0, k)) <= portfolio_value_spec(s),
    decreases s.len(),
{
    if k < s.len() {
        assert(s.drop_last().subrange(0, k) == s.subrange(0, k));
        lemma_portfolio_value_prefix(s.drop_last(), k);
    } else {
        assert(s.subrange(0, k) == s);
    }
}

/// Total value of the portfolio: the sum of the recorded balances.
pub fn calculate_total_portfolio_value(holdings: &Vec<HeldAsset>) -> (r: u128)
    requires
        portfolio_value_spec(holdings@) <= u128::MAX,
    ensures
        r == portfolio_value_spec(holdings@),
{
    let mut total: u128 = 0;
    let mut i: usize = 0;
    while i < holdings.len()
        invariant
            0 <= i <= holdings@.len(),
            portfolio_value_spec(holdings@) <= u128::MAX,
            total == portfolio_value_spec(holdings@.subrange(0, i as int)),
        decreases holdings@.len() - i,
    {
        proof {
            let post = holdings@.subrange(0, i + 1);
            assert(post.drop_last() == holdings@.subrange(0, i as int));
            lemma_portfolio_value_prefix(holdings@, i + 1);
        }
        match holdings[i].balance {
            Some(b) => { total = total + b; },
            None => {},
        }
        i = i + 1;
    }
    proof {
        assert(holdings@.subrange(0, holdings@.len() as int) == holdings@);
    }
    total
}

/// Asset count, total value and diversification of the portfolio.
pub fn calculate_aggregate_metrics(holdings: &Vec<HeldAsset>) -> (r: AggregateMetrics)
    requires
        holdings_fit(holdings@),
    ensures
        r == aggregate_spec(holdings@),
{
    let total_value = calculate_total_portfolio_value(holdings);
    let asset_count = holdings.len() as u32;
    AggregateMetrics { asset_count, total_value, diversification_score: calculate_diversification_score(asset_count) }
}

/// Performance figures (fixed values: no history is kept).
pub fn calculate_performance_metrics() -> (r: PerformanceMetrics)
    ensures
        r == (PerformanceMetrics { total_return_bps: 1500, annualized_return_bps: 1200, sharpe_ratio: 1500 }),
{
    PerformanceMetrics { total_return_bps: 1500, annualized_return_bps: 1200, sharpe_ratio: 1500 }
}

/// What a viewer sees of the components: the aggregate figures, or for
/// investors the list of assets.
pub fn get_components_for_viewer_impl(level: ViewerAccessLevel, holdings: &Vec<HeldAsset>) -> (r: ComponentView)
    requires
        holdings_fit(holdings@),
    ensures
        level is Investor ==> (r matches ComponentView::AssetsOnly(v) && v@ == assets_of(holdings@)),
        !(level is Investor) ==> (r matches ComponentView::Aggregate(m) && m == aggregate_spec(holdings@)),
{
    match level {
        ViewerAccessLevel::Investor => {
            let mut assets: Vec<u64> = Vec::new();
            let mut i: usize = 0;
            while i < holdings.len()
                invariant
                    0 <= i <= holdings@.len(),
                    assets@ == assets_of(holdings@.subrange(0, i as int)),
                decreases holdings@.len() - i,
            {
                proof {
                    assert(assets_of(holdings@.subrange(0, i + 1)) =~= assets_of(holdings@.subrange(0, i as int)).push(holdings@[i as int].asset));
                }
                assets.push(holdings[i].asset);
                i = i + 1;
            }
            proof {
                assert(holdings@.subrange(0, holdings@.len() as int) == holdings@);
            }
            ComponentView::AssetsOnly(assets)
        },
        _ => ComponentView::Aggregate(calculate_aggregate_metrics(holdings)),
    }
}

/// Recorded balances per asset, for a viewer who may see component weights;
/// nothing otherwise.
pub fn calculate_component_values_for_viewer(can_view_details: bool, holdings: &Vec<HeldAsset>) -> (r: Vec<(u64, u128)>)
    ensures
        r@ == (if can_view_details { component_values_spec(holdings@) } else { Seq::empty() }),
{
    let mut values: Vec<(u64, u128)> = Vec::new();
    if can_view_details {
        let mut i: usize = 0;
        while i < holdings.len()
            invariant
                0 <= i <= holdings@.len(),
                values@ == component_values_spec(holdings@.subrange(0, i as int)),
            decreases holdings@.len() - i,
        {
            let h = holdings[i];
            proof {
                let post = holdings@.subrange(0, i + 1);
                assert(post.drop_last() == holdings@.subrange(0, i as int));
                assert(post.last() == h);
            }
            match h.balance {
                Some(b) => values.push((h.asset, b)),
                None => {},
            }
            i = i + 1;
        }
        proof {
            assert(holdings@.subrange(0, holdings@.len() as int) == holdings@);
        }
    }
    values
}

/// What a viewer sees of the NAV: privileged viewers get the breakdown, the
/// others only the total.
pub fn get_nav_for_viewer_impl(level: ViewerAccessLevel, can_view_details: bool, holdings: &Vec<HeldAsset>) -> (r: NavResponse)
    requires
        holdings_fit(holdings@),
    ensures
        privileged(level) ==> (r matches NavResponse::Detailed { current_nav, component_values, performance }
            && current_nav == portfolio_value_spec(holdings@)
            && component_values@ == (if can_view_details { component_values_spec(holdings@) } else { Seq::empty() })
            && performance == (PerformanceMetrics { total_return_bps: 1500, annualized_return_bps: 1200, sharpe_ratio: 1500 })),
        !privileged(level) ==> (r matches NavResponse::Aggregate(v) && v == portfolio_value_spec(holdings@)),
{
    match level {
        ViewerAccessLevel::Emergency | ViewerAccessLevel::Compliance | ViewerAccessLevel::Authorized => {
            let current_nav = calculate_total_portfolio_value(holdings);
            let component_values = calculate_component_values_for_viewer(can_view_details, holdings);
            let performance = calculate_performance_metrics();
            NavResponse::Detailed { current_nav, component_values, performance }
        },
        ViewerAccessLevel::Investor | ViewerAccessLevel::Public => {
            NavResponse::Aggregate(calculate_total_portfolio_value(holdings))
        },
    }
}

/// Portfolio summary for a viewer; the private components are listed for
/// privileged viewers only.
pub fn get_portfolio_summary_for_viewer_impl(level: ViewerAccessLevel, holdings: &Vec<HeldAsset>) -> (r: PortfolioSummary)
    requires
        holdings_fit(holdings@),
    ensures
        r.total_value == portfolio_value_spec(holdings@),
        r.asset_count == holdings@.len(),
        r.performance == (PerformanceMetrics { total_return_bps: 1500, annualized_return_bps: 1200, sharpe_ratio: 1500 }),
        r.risk_score == 100 - diversification_spec(holdings@.len() as u32),
        privileged(level) ==> (r.components matches Some(v) && v@ == private_assets_spec(holdings@)),
        !privileged(level) ==> r.components is None,
{
    let total_value = calculate_total_portfolio_value(holdings);
    let asset_count = holdings.len() as u32;
    let performance = calculate_performance_metrics();
    let risk_score = calculate_risk_score(asset_count);
    let components = match level {
        ViewerAccessLevel::Authorized | ViewerAccessLevel::Compliance | ViewerAccessLevel::Emergency => {
            let mut out: Vec<u64> = Vec::new();
            let mut i: usize = 0;
            while i < holdings.len()
                invariant
                    0 <= i <= holdings@.len(),
                    out@ == private_assets_spec(holdings@.subrange(0, i as int)),
                decreases holdings@.len() - i,
            {
                let h = holdings[i];
                proof {
                    let post = holdings@.subrange(0, i + 1);
                    assert(post.drop_last() == holdings@.subrange(0, i as int));
                    assert(post.last() == h);
                }
                if h.is_private {
                    out.push(h.asset);
                }
                i = i + 1;
            }
            proof {
                assert(holdings@.subrange(0, holdings@.len() as int) == holdings@);
            }
            Some(out)
        },
        ViewerAccessLevel::Investor | ViewerAccessLevel::Public => None,
    };
    PortfolioSummary { total_value, asset_count, performance, risk_score, components }
}

/// Weight (bps) of an asset for proof generation: private assets report a
/// fixed 35% placeholder, public ones their weight, unknown assets zero.
/// The first private match wins over public ones.
pub open spec fn actual_allocation_spec(s: Seq<HeldAsset>, asset: u64) -> u128 {
    if exists|i: int| 0 <= i < s.len() && s[i].is_private && s[i].asset == asset {
        3500
    } else if exists|i: int| 0 <= i < s.len() && !s[i].is_private && s[i].asset == asset {
        s[choose|i: int| 0 <= i < s.len() && !s[i].is_private && s[i].asset == asset
            && forall|j: int| 0 <= j < i ==> !(!s[j].is_private && s[j].asset == asset)].weight
    } else {
        0
    }
}

/// Reports the weight of an asset (see `actual_allocation_spec`).
pub fn get_actual_asset_allocation(holdings: &Vec<HeldAsset>, asset: u64) -> (r: u128)
    ensures
        r == actual_allocation_spec(holdings@, asset),
{
    let mut i: usize = 0;
    while i < holdings.len()
        invariant
            0 <= i <= holdings@.len(),
            forall|j: int| 0 <= j < i ==> !(holdings@[j].is_private && holdings@[j].asset == asset),
        decreases holdings@.len() - i,
    {
        if holdings[i].is_private && holdings[i].asset == asset {
            return 3500;
        }
        i = i + 1;
    }
    let mut k: usize = 0;
    while k < holdings.len()
        invariant
            0 <= k <= holdings@.len(),
            forall|j: int| 0 <= j < holdings@.len() ==> !(holdings@[j].is_private && holdings@[j].asset == asset),
            forall|j: int| 0 <= j < k ==> !(!holdings@[j].is_private && holdings@[j].asset == asset),
        decreases holdings@.len() - k,
    {
        if !holdings[k].is_private && holdings[k].asset == asset {
            proof {
                let s = holdings@;
                let c = choose|i: int| 0 <= i < s.len() && !s[i].is_private && s[i].asset == asset
                    && forall|j: int| 0 <= j < i ==> !(!s[j].is_private && s[j].asset == asset);
                assert(0 <= k < s.len() && !s[k as int].is_private && s[k as int].asset == asset
                    && forall|j: int| 0 <= j < k ==> !(!s[j].is_private && s[j].asset == asset));
                assert(0 <= c < s.len() && !s[c].is_private && s[c].asset == asset
                    && forall|j: int| 0 <= j < c ==> !(!s[j].is_private && s[j].asset == asset));
                if c < k {
                    assert(false);
                } else if c > k {
                    assert(!(!s[k as int].is_private && s[k as int].asset == asset));
                }
            }
            return holdings[k].weight;
        }
        k = k + 1;
    }
    0
}

/// Addresses of the stored private components that new commitments update,
/// matched by asset (the first stored component with the asset); a
/// commitment whose asset is not stored is refused.
pub open spec fn commitment_targets_spec(existing: Seq<(u64, u64)>, new_assets: Seq<u64>) -> Result<Seq<u64>, IndexError>
    decreases new_assets.len(),
{
    if new_assets.len() == 0 {
        Ok(Seq::empty())
    } else {
        match commitment_targets_spec(existing, new_assets.drop_last()) {
            Err(e) => Err(e),
            Ok(prev) => {
                let a = new_assets.last();
                if exists|i: int| 0 <= i < existing.len() && existing[i].1 == a {
                    Ok(prev.push(existing[first_with_asset(existing, a)].0))
                } else {
                    Err(IndexError::ComponentNotFound)
                }
            },
        }
    }
}

/// Position of the first stored component with `asset`.
pub open spec fn first_with_asset(existing: Seq<(u64, u64)>, asset: u64) -> int {
    choose|i: int| 0 <= i < existing.len() && existing[i].1 == asset && forall|j: int| 0 <= j < i ==> existing[j].1 != asset
}

fn find_asset(existing: &Vec<(u64, u64)>, asset: u64) -> (r: Option<u64>)
    ensures
        match r {
            Some(addr) => (exists|i: int| 0 <= i < existing@.len() && existing@[i].1 == asset)
                && addr == existing@[first_with_asset(existing@, asset)].0,
            None => !(exists|i: int| 0 <= i < existing@.len() && existing@[i].1 == asset),
        },
{
    let mut i: usize = 0;
    while i < existing.len()
        invariant
            0 <= i <= existing@.len(),
            forall|j: int| 0 <= j < i ==> existing@[j].1 != asset,
        decreases existing@.len() - i,
    {
        if existing[i].1 == asset {
            proof {
                let s = existing@;
                let c = first_with_asset(s, asset);
                assert(0 <= i < s.len() && s[i as int].1 == asset && forall|j: int| 0 <= j < i ==> s[j].1 != asset);
                assert(0 <= c < s.len() && s[c].1 == asset && forall|j: int| 0 <= j < c ==> s[j].1 != asset);
                if c < i {
                    assert(s[c].1 != asset);
                } else if c > i {
                    assert(s[i as int].1 != asset);
                }
            }
            return Some(existing[i].0);
        }
        i = i + 1;
    }
    None
}

/// The stored components that a private rebalance's new commitments update,
/// given the stored (address, asset) pairs and the new commitments' assets.
pub fn update_private_component_commitments(existing: &Vec<(u64, u64)>, new_assets: &Vec<u64>) -> (r: Result<Vec<u64>, IndexError>)
    ensures
        match commitment_targets_spec(existing@, new_assets@) {
            Ok(v) => r is Ok && r->Ok_0@ == v,
            Err(e) => r == Err::<Vec<u64>, IndexError>(e),
        },
{
    let mut targets: Vec<u64> = Vec::new();
    let mut i: usize = 0;
    while i < new_assets.len()
        invariant
            0 <= i <= new_assets@.len(),
            commitment_targets_spec(existing@, new_assets@.subrange(0, i as int)) == Ok::<Seq<u64>, IndexError>(targets@),
        decreases new_assets@.len() - i,
    {
        let a = new_assets[i];
        proof {
            let post = new_assets@.subrange(0, i + 1);
            assert(post.drop_last() == new_assets@.subrange(0, i as int));
            assert(post.last() == a);
        }
        match find_asset(existing, a) {
            Some(addr) => targets.push(addr),
            None => {
                proof { lemma_targets_err_extends(existing@, new_assets@, i + 1); }
                return Err(IndexError::ComponentNotFound);
            },
        }
        i = i + 1;
    }
    proof {
        assert(new_assets@.subrange(0, new_assets@.len() as int) == new_assets@);
    }
    Ok(targets)
}

proof fn lemma_targets_err_extends(existing: Seq<(u64, u64)>, assets: Seq<u64>, k: int)
    requires
        0 <= k <= assets.len(),
        commitment_targets_spec(existing, assets.subrange(0, k)) is Err,
    ensures
        commitment_targets_spec(existing, assets) == commitment_targets_spec(existing, assets.subrange(0, k)),
    decreases assets.len() - k,
{
    if k < assets.len() {
        let next = assets.subrange(0, k + 1);
        assert(next.drop_last() == assets.subrange(0, k));
        lemma_targets_err_extends(existing, assets, k + 1);
    } else {
        assert(assets.subrange(0, k) == assets);
    }
}

} // verus!

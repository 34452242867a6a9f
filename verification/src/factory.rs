//! The index factory: the registry of deployed indexes (per manager and
//! overall), the per-manager deployment sequence that salts new addresses,
//! and the per-index fee switches. Deployment itself is done by the
//! contract layer with the sequence handed out here.

use vstd::prelude::*;
use std::collections::HashMap;

verus! {

broadcast use vstd::std_specs::hash::group_hash_axioms;

/// A deployed index and the manager that deployed it.
#[derive(Debug, Clone, Copy, PartialEq, Eq, Structural)]
pub struct Deployment {
    pub manager: u64,
    pub index: u64,
}

/// One piece of the salt that fixes a new index's address; the pieces are
/// encoded and hashed in order by the contract layer.
#[derive(Debug, Clone, Copy, PartialEq, Eq, Structural)]
pub enum SaltPart {
    /// The `0x00` separator symbol.
    Separator,
    /// The index token's symbol.
    TokenSymbol(u64),
    /// The managing admin's address.
    Admin(u64),
}

/// Salt layout of an index: a public index is salted by its token symbol
/// alone, so that a symbol names one public index; a private one by the
/// symbol and its admin, so that any admin may reuse a symbol. Separators
/// open, divide and close the pieces.
pub open spec fn index_salt_spec(public: bool, admin: u64, token_symbol: u64) -> Seq<SaltPart> {
    if public {
        seq![SaltPart::Separator, SaltPart::TokenSymbol(token_symbol), SaltPart::Separator]
    } else {
        seq![SaltPart::Separator, SaltPart::TokenSymbol(token_symbol), SaltPart::Separator,
            SaltPart::Admin(admin), SaltPart::Separator]
    }
}

/// The pieces of a new index's salt, in the order they are hashed.
pub fn get_index_salt(public: bool, admin: u64, token_symbol: u64) -> (r: Vec<SaltPart>)
    ensures
        r@ == index_salt_spec(public, admin, token_symbol),
{
    let mut salt: Vec<SaltPart> = Vec::new();
    salt.push(SaltPart::Separator);
    salt.push(SaltPart::TokenSymbol(token_symbol));
    if !public {
        salt.push(SaltPart::Separator);
        salt.push(SaltPart::Admin(admin));
    }
    salt.push(SaltPart::Separator);
    proof {
        assert(salt@ =~= index_salt_spec(public, admin, token_symbol));
    }
    salt
}

/// Two public indexes get the same salt exactly when their symbols match,
/// whoever manages them; private indexes of different admins never share a
/// salt, nor does a private index share one with a public index.
pub proof fn lemma_index_salt_separates(a1: u64, a2: u64, s1: u64, s2: u64)
    ensures
        (index_salt_spec(true, a1, s1) == index_salt_spec(true, a2, s2)) <==> s1 == s2,
        a1 != a2 ==> index_salt_spec(false, a1, s1) != index_salt_spec(false, a2, s2),
        index_salt_spec(true, a1, s1) != index_salt_spec(false, a2, s2),
{
    if index_salt_spec(true, a1, s1) == index_salt_spec(true, a2, s2) {
        assert(index_salt_spec(true, a1, s1)[1] == index_salt_spec(true, a2, s2)[1]);
    }
    if s1 == s2 {
        assert(index_salt_spec(true, a1, s1) =~= index_salt_spec(true, a2, s2));
    }
    if a1 != a2 {
        assert(index_salt_spec(false, a1, s1)[3] != index_salt_spec(false, a2, s2)[3]);
    }
    assert(index_salt_spec(true, a1, s1).len() != index_salt_spec(false, a2, s2).len());
}

/// State of the index factory.
#[derive(Debug)]
pub struct IndexFactory {
    pub aggregator: u64,
    pub router: u64,
    pub protocol_fee_fraction: u32,
    pub max_manager_fee_fraction: u32,
    pub protocol_fee_recipient: u64,
    pub minimum_fee_threshold: u128,
    /// Set by `kill_create`; not consulted by `get_is_killed_create`.
    pub is_killed_create: bool,
    /// All deployments, oldest first.
    pub deployments: Vec<Deployment>,
    /// Fee switches set per index; unset indexes have fees enabled.
    pub fee_enabled: HashMap<u64, bool>,
}

/// Indexes deployed by `manager`, oldest first.
pub open spec fn deployed_by(s: Seq<Deployment>, manager: u64) -> Seq<u64>
    decreases s.len(),
{
    if s.len() == 0 {
        Seq::empty()
    } else if s.last().manager == manager {
        deployed_by(s.drop_last(), manager).push(s.last().index)
    } else {
        deployed_by(s.drop_last(), manager)
    }
}

/// All deployed indexes, oldest first.
pub open spec fn all_deployed(s: Seq<Deployment>) -> Seq<u64> {
    s.map_values(|d: Deployment| d.index)
}

/// Fee switch of an index: as set, or enabled when never set.
pub open spec fn fee_enabled_spec(m: Map<u64, bool>, index: u64) -> bool {
    if m.contains_key(index) { m[index] } else { true }
}

/// Switches after applying `(index, enabled)` settings in order, and the
/// settings that changed a switch (each reported once, in order).
pub open spec fn batch_fee_spec(m: Map<u64, bool>, settings: Seq<(u64, bool)>) -> (Map<u64, bool>, Seq<(u64, bool)>)
    decreases settings.len(),
{
    if settings.len() == 0 {
        (m, Seq::empty())
    } else {
        let (m1, changed) = batch_fee_spec(m, settings.drop_last());
        let (index, enabled) = settings.last();
        (m1.insert(index, enabled),
            if fee_enabled_spec(m1, index) != enabled { changed.push((index, enabled)) } else { changed })
    }
}

impl IndexFactory {
    /// A factory with no deployments and no fee switches set.
    pub fn new(aggregator: u64, router: u64, max_manager_fee_fraction: u32, protocol_fee_fraction: u32,
        protocol_fee_recipient: u64, minimum_fee_threshold: u128) -> (r: IndexFactory)
        ensures
            r.aggregator == aggregator && r.router == router,
            r.max_manager_fee_fraction == max_manager_fee_fraction,
            r.protocol_fee_fraction == protocol_fee_fraction,
            r.protocol_fee_recipient == protocol_fee_recipient,
            r.minimum_fee_threshold == minimum_fee_threshold,
            !r.is_killed_create,
            r.deployments@ == Seq::<Deployment>::empty(),
            r.fee_enabled@ == Map::<u64, bool>::empty(),
    {
        IndexFactory {
            aggregator,
            router,
            protocol_fee_fraction,
            max_manager_fee_fraction,
            protocol_fee_recipient,
            minimum_fee_threshold,
            is_killed_create: false,
            deployments: Vec::new(),
            fee_enabled: HashMap::new(),
        }
    }

    /// Indexes deployed by `manager`, oldest first.
    pub fn get_deployed_indexes(&self, manager: u64) -> (r: Vec<u64>)
        ensures
            r@ == deployed_by(self.deployments@, manager),
    {
        let mut out: Vec<u64> = Vec::new();
        let mut i: usize = 0;
        while i < self.deployments.len()
            invariant
                0 <= i <= self.deployments@.len(),
                out@ == deployed_by(self.deployments@.subrange(0, i as int), manager),
            decreases self.deployments@.len() - i,
        {
            let d = self.deployments[i];
            proof {
                let post = self.deployments@.subrange(0, i + 1);
                assert(post.drop_last() == self.deployments@.subrange(0, i as int));
                assert(post.last() == d);
            }
            if d.manager == manager {
                out.push(d.index);
            }
            i = i + 1;
        }
        proof {
            assert(self.deployments@.subrange(0, self.deployments@.len() as int) == self.deployments@);
        }
        out
    }

    /// All deployed indexes, oldest first.
    pub fn get_all_deployed_indexes(&self) -> (r: Vec<u64>)
        ensures
            r@ == all_deployed(self.deployments@),
    {
        let mut out: Vec<u64> = Vec::new();
        let mut i: usize = 0;
        while i < self.deployments.len()
            invariant
                0 <= i <= self.deployments@.len(),
                out@ == all_deployed(self.deployments@.subrange(0, i as int)),
            decreases self.deployments@.len() - i,
        {
            let d = self.deployments[i];
            proof {
                assert(all_deployed(self.deployments@.subrange(0, i + 1))
                    =~= all_deployed(self.deployments@.subrange(0, i as int)).push(d.index));
            }
            out.push(d.index);
            i = i + 1;
        }
        proof {
            assert(self.deployments@.subrange(0, self.deployments@.len() as int) == self.deployments@);
        }
        out
    }

    /// Number of indexes deployed by `manager`.
    pub fn get_index_count(&self, manager: u64) -> (r: u32)
        requires
            self.deployments@.len() <= u32::MAX,
        ensures
            r == deployed_by(self.deployments@, manager).len(),
    {
        let v = self.get_deployed_indexes(manager);
        proof {
            lemma_deployed_by_len(self.deployments@, manager);
        }
        v.len() as u32
    }

    /// Number of deployed indexes.
    pub fn get_total_index_count(&self) -> (r: u32)
        requires
            self.deployments@.len() <= u32::MAX,
        ensures
            r == self.deployments@.len(),
    {
        self.deployments.len() as u32
    }

    /// Deployment sequence of `manager`: the number of indexes it deployed,
    /// used to salt the address of its next index.
    pub fn get_contract_sequence(&self, manager: u64) -> (r: u32)
        requires
            self.deployments@.len() <= u32::MAX,
        ensures
            r == deployed_by(self.deployments@, manager).len(),
    {
        self.get_index_count(manager)
    }

    /// Records a new deployment by `manager`; its sequence moves on by one.
    pub fn add_deployed_index(&mut self, manager: u64, index: u64)
        ensures
            final(self).deployments@ == old(self).deployments@.push(Deployment { manager, index }),
            final(self).fee_enabled@ == old(self).fee_enabled@,
            final(self).is_killed_create == old(self).is_killed_create,
    {
        self.deployments.push(Deployment { manager, index });
    }

    /// Records the index deployed by `admin` at `index_address` and returns
    /// the sequence number that salted its address (the admin's deployment
    /// count before it).
    pub fn deploy_index_contract(&mut self, admin: u64, index_address: u64) -> (r: u32)
        requires
            old(self).deployments@.len() < u32::MAX,
        ensures
            r == deployed_by(old(self).deployments@, admin).len(),
            final(self).deployments@ == old(self).deployments@.push(Deployment { manager: admin, index: index_address }),
            final(self).fee_enabled@ == old(self).fee_enabled@,
            final(self).is_killed_create == old(self).is_killed_create,
    {
        let sequence = self.get_contract_sequence(admin);
        self.add_deployed_index(admin, index_address);
        sequence
    }

    /// Fee switch of an index (enabled when never set).
    pub fn get_index_fee_enabled(&self, index: u64) -> (r: bool)
        ensures
            r == fee_enabled_spec(self.fee_enabled@, index),
    {
        match self.fee_enabled.get(&index) {
            Some(v) => *v,
            None => true,
        }
    }

    /// Sets the fee switch of an index; returns whether it changed.
    pub fn set_index_fee_enabled(&mut self, index: u64, enabled: bool) -> (r: bool)
        ensures
            final(self).fee_enabled@ == old(self).fee_enabled@.insert(index, enabled),
            r == (fee_enabled_spec(old(self).fee_enabled@, index) != enabled),
            final(self).deployments@ == old(self).deployments@,
            final(self).is_killed_create == old(self).is_killed_create,
    {
        let old_status = self.get_index_fee_enabled(index);
        self.fee_enabled.insert(index, enabled);
        old_status != enabled
    }

    /// Sets several fee switches in order; returns the settings that changed
    /// a switch, in order.
    pub fn batch_set_index_fee_enabled(&mut self, index_settings: &Vec<(u64, bool)>) -> (r: Vec<(u64, bool)>)
        ensures
            (final(self).fee_enabled@, r@) == batch_fee_spec(old(self).fee_enabled@, index_settings@),
            final(self).deployments@ == old(self).deployments@,
            final(self).is_killed_create == old(self).is_killed_create,
    {
        let mut changed: Vec<(u64, bool)> = Vec::new();
        let mut i: usize = 0;
        while i < index_settings.len()
            invariant
                0 <= i <= index_settings@.len(),
                (self.fee_enabled@, changed@) == batch_fee_spec(old(self).fee_enabled@, index_settings@.subrange(0, i as int)),
                self.deployments@ == old(self).deployments@,
                self.is_killed_create == old(self).is_killed_create,
            decreases index_settings@.len() - i,
        {
            let (index, enabled) = index_settings[i];
            proof {
                let post = index_settings@.subrange(0, i + 1);
                assert(post.drop_last() == index_settings@.subrange(0, i as int));
                assert(post.last() == (index, enabled));
            }
            if self.set_index_fee_enabled(index, enabled) {
                changed.push((index, enabled));
            }
            i = i + 1;
        }
        proof {
            assert(index_settings@.subrange(0, index_settings@.len() as int) == index_settings@);
        }
        changed
    }

    /// Stops index creation (the flag is recorded).
    pub fn kill_create(&mut self)
        ensures
            final(self).is_killed_create,
            final(self).deployments@ == old(self).deployments@,
            final(self).fee_enabled@ == old(self).fee_enabled@,
    {
        self.is_killed_create = true;
    }

    /// Resumes index creation.
    pub fn unkill_create(&mut self)
        ensures
            !final(self).is_killed_create,
            final(self).deployments@ == old(self).deployments@,
            final(self).fee_enabled@ == old(self).fee_enabled@,
    {
        self.is_killed_create = false;
    }

    /// Whether index creation is stopped: always reported as not stopped,
    /// whatever `kill_create` recorded.
    pub fn get_is_killed_create(&self) -> (r: bool)
        ensures
            !r,
    {
        false
    }
}

proof fn lemma_deployed_by_len(s: Seq<Deployment>, manager: u64)
    ensures
        deployed_by(s, manager).len() <= s.len(),
    decreases s.len(),
{
    if s.len() > 0 {
        lemma_deployed_by_len(s.drop_last(), manager);
    }
}

/// Recording a deployment appends the index to its manager's list and to
/// the global list, leaves every other manager's list alone, and moves the
/// manager's sequence on by one, so no two deployments of a manager share a
/// sequence number.
pub proof fn lemma_add_deployment(s: Seq<Deployment>, manager: u64, index: u64, other: u64)
    requires
        other != manager,
    ensures
        deployed_by(s.push(Deployment { manager, index }), manager) == deployed_by(s, manager).push(index),
        deployed_by(s.push(Deployment { manager, index }), other) == deployed_by(s, other),
        all_deployed(s.push(Deployment { manager, index })) == all_deployed(s).push(index),
        deployed_by(s.push(Deployment { manager, index }), manager).len() == deployed_by(s, manager).len() + 1,
{
    let s2 = s.push(Deployment { manager, index });
    assert(s2.drop_last() == s);
    assert(all_deployed(s2) =~= all_deployed(s).push(index));
}

} // verus!

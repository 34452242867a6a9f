//! The adapter registry: a one-to-one naming of swap adapter contracts.
//! Each name maps to one adapter and each adapter carries one name; names
//! are listed in the order in which they were first registered.

use vstd::prelude::*;
use std::collections::HashMap;
use crate::errors::{AccessError, AdapterRegistryError};

verus! {

broadcast use vstd::std_specs::hash::group_hash_axioms;

/// Role holders of the registry.
#[derive(Debug, Clone, Copy, PartialEq, Eq, Structural)]
pub struct RegistryRoles {
    pub admin: u64,
    pub emergency_admin: u64,
    pub operations_admin: u64,
}

/// Registry of named swap adapters.
#[derive(Debug)]
pub struct AdapterRegistry {
    roles: RegistryRoles,
    names: Vec<u64>,
    by_name: HashMap<u64, u64>,
    by_adapter: HashMap<u64, u64>,
}

/// The two maps are inverse to each other.
pub open spec fn maps_inverse(by_name: Map<u64, u64>, by_adapter: Map<u64, u64>) -> bool {
    &&& forall|n: u64| #[trigger] by_name.contains_key(n) ==>
            by_adapter.contains_key(by_name[n]) && by_adapter[by_name[n]] == n
    &&& forall|a: u64| #[trigger] by_adapter.contains_key(a) ==>
            by_name.contains_key(by_adapter[a]) && by_name[by_adapter[a]] == a
}

/// Name list after registering `name`: appended when new.
pub open spec fn names_after(names: Seq<u64>, name: u64) -> Seq<u64> {
    if names.contains(name) { names } else { names.push(name) }
}

/// Reverse map after naming `adapter` as `name`: the adapter that `name`
/// pointed to before loses its name.
pub open spec fn reverse_after(by_name: Map<u64, u64>, by_adapter: Map<u64, u64>, name: u64, adapter: u64) -> Map<u64, u64> {
    if by_name.contains_key(name) && by_name[name] != adapter {
        by_adapter.remove(by_name[name]).insert(adapter, name)
    } else {
        by_adapter.insert(adapter, name)
    }
}

/// Outcome of registering `adapter` under `name`: an adapter already
/// carrying another name is refused.
pub open spec fn set_adapter_spec(by_adapter: Map<u64, u64>, name: u64, adapter: u64) -> Result<(), AdapterRegistryError> {
    if by_adapter.contains_key(adapter) && by_adapter[adapter] != name {
        Err(AdapterRegistryError::AdapterAddressAlreadyAssigned)
    } else {
        Ok(())
    }
}

impl AdapterRegistry {
    /// Who may administer the registry.
    pub closed spec fn roles_view(&self) -> RegistryRoles {
        self.roles
    }

    /// Names in the order in which they were first registered.
    pub closed spec fn names_view(&self) -> Seq<u64> {
        self.names@
    }

    /// Adapter address by name.
    pub closed spec fn adapter_map(&self) -> Map<u64, u64> {
        self.by_name@
    }

    /// Name by adapter address.
    pub closed spec fn name_map(&self) -> Map<u64, u64> {
        self.by_adapter@
    }

    /// Names are distinct, exactly the named ones are listed, and the two
    /// maps are inverse to each other.
    pub closed spec fn wf(&self) -> bool {
        &&& self.names@.no_duplicates()
        &&& forall|n: u64| self.names@.contains(n) <==> #[trigger] self.by_name@.contains_key(n)
        &&& maps_inverse(self.by_name@, self.by_adapter@)
    }

    /// An empty registry administered by the given role holders.
    pub fn new(admin: u64, emergency_admin: u64, operations_admin: u64) -> (r: AdapterRegistry)
        ensures
            r.wf(),
            r.roles_view() == (RegistryRoles { admin, emergency_admin, operations_admin }),
            r.names_view() == Seq::<u64>::empty(),
            r.adapter_map() == Map::<u64, u64>::empty(),
            r.name_map() == Map::<u64, u64>::empty(),
    {
        AdapterRegistry {
            roles: RegistryRoles { admin, emergency_admin, operations_admin },
            names: Vec::new(),
            by_name: HashMap::new(),
            by_adapter: HashMap::new(),
        }
    }

    /// The registry's role holders.
    pub fn get_roles(&self) -> (r: RegistryRoles)
        ensures
            r == self.roles_view(),
    {
        self.roles
    }

    /// Whether `caller` may change registrations: the admin (owner) or the
    /// operations admin.
    pub fn is_operations_admin_or_owner(&self, caller: u64) -> (r: bool)
        ensures
            r == (caller == self.roles_view().admin || caller == self.roles_view().operations_admin),
    {
        caller == self.roles.admin || caller == self.roles.operations_admin
    }

    /// Names a new operations admin; only the admin may.
    pub fn set_privileged_addrs(&mut self, caller: u64, operations_admin: u64) -> (r: Result<(), AccessError>)
        requires
            old(self).wf(),
        ensures
            final(self).wf(),
            r is Ok <==> caller == old(self).roles_view().admin,
            r is Err ==> r == Err::<(), AccessError>(AccessError::Unauthorized) && final(self).roles_view() == old(self).roles_view(),
            r is Ok ==> final(self).roles_view() == (RegistryRoles { operations_admin, ..old(self).roles_view() }),
            final(self).adapter_map() == old(self).adapter_map(),
            final(self).name_map() == old(self).name_map(),
            final(self).names_view() == old(self).names_view(),
    {
        if caller != self.roles.admin {
            return Err(AccessError::Unauthorized);
        }
        self.roles.operations_admin = operations_admin;
        Ok(())
    }

    /// `set_adapter` on behalf of `caller`, who must be the admin or the
    /// operations admin; anyone else is refused and nothing changes.
    pub fn set_adapter_as(&mut self, caller: u64, name: u64, adapter: u64) -> (r: Result<Result<(), AdapterRegistryError>, AccessError>)
        requires
            old(self).wf(),
        ensures
            final(self).wf(),
            final(self).roles_view() == old(self).roles_view(),
            !(caller == old(self).roles_view().admin || caller == old(self).roles_view().operations_admin) ==>
                r == Err::<Result<(), AdapterRegistryError>, AccessError>(AccessError::Unauthorized)
                && final(self).adapter_map() == old(self).adapter_map()
                && final(self).name_map() == old(self).name_map()
                && final(self).names_view() == old(self).names_view(),
            (caller == old(self).roles_view().admin || caller == old(self).roles_view().operations_admin) ==> {
                &&& r == Ok::<Result<(), AdapterRegistryError>, AccessError>(set_adapter_spec(old(self).name_map(), name, adapter))
                &&& set_adapter_spec(old(self).name_map(), name, adapter) is Ok ==> {
                    &&& final(self).adapter_map() == old(self).adapter_map().insert(name, adapter)
                    &&& final(self).name_map() == reverse_after(old(self).adapter_map(), old(self).name_map(), name, adapter)
                    &&& final(self).names_view() == names_after(old(self).names_view(), name)
                }
                &&& set_adapter_spec(old(self).name_map(), name, adapter) is Err ==> {
                    &&& final(self).adapter_map() == old(self).adapter_map()
                    &&& final(self).name_map() == old(self).name_map()
                    &&& final(self).names_view() == old(self).names_view()
                }
            },
    {
        if !self.is_operations_admin_or_owner(caller) {
            return Err(AccessError::Unauthorized);
        }
        Ok(self.set_adapter(name, adapter))
    }

    fn contains_name(&self, name: u64) -> (r: bool)
        ensures
            r == self.names@.contains(name),
    {
        let mut i: usize = 0;
        while i < self.names.len()
            invariant
                0 <= i <= self.names@.len(),
                forall|j: int| 0 <= j < i ==> self.names@[j] != name,
            decreases self.names@.len() - i,
        {
            if self.names[i] == name {
                return true;
            }
            i = i + 1;
        }
        false
    }

    /// Registers `adapter` under `name`, replacing the adapter the name had;
    /// the replaced adapter loses its name. An adapter that already carries
    /// another name is refused and nothing changes.
    pub fn set_adapter(&mut self, name: u64, adapter: u64) -> (r: Result<(), AdapterRegistryError>)
        requires
            old(self).wf(),
        ensures
            final(self).wf(),
            r == set_adapter_spec(old(self).name_map(), name, adapter),
            final(self).roles_view() == old(self).roles_view(),
            r is Ok ==> final(self).adapter_map() == old(self).adapter_map().insert(name, adapter),
            r is Ok ==> final(self).name_map() == reverse_after(old(self).adapter_map(), old(self).name_map(), name, adapter),
            r is Ok ==> final(self).names_view() == names_after(old(self).names_view(), name),
            r is Err ==> final(self).adapter_map() == old(self).adapter_map(),
            r is Err ==> final(self).name_map() == old(self).name_map(),
            r is Err ==> final(self).names_view() == old(self).names_view(),
    {
        match self.by_adapter.get(&adapter) {
            Some(assigned) => {
                if *assigned != name {
                    return Err(AdapterRegistryError::AdapterAddressAlreadyAssigned);
                }
            },
            None => {},
        }
        let ghost by_name0 = self.by_name@;
        let ghost by_adapter0 = self.by_adapter@;
        let ghost names0 = self.names@;
        match self.by_name.get(&name) {
            Some(old_adapter) => {
                let old_adapter = *old_adapter;
                if old_adapter != adapter {
                    self.by_adapter.remove(&old_adapter);
                }
            },
            None => {},
        }
        self.by_name.insert(name, adapter);
        self.by_adapter.insert(adapter, name);
        if !self.contains_name(name) {
            self.names.push(name);
        }
        proof {
            assert(self.names@ == names_after(names0, name));
            assert forall|n: u64| self.names@.contains(n) <==> #[trigger] self.by_name@.contains_key(n) by {
                if n != name {
                    if names0.contains(n) {
                        let k = choose|k: int| 0 <= k < names0.len() && names0[k] == n;
                        assert(self.names@[k] == n);
                    }
                    if self.names@.contains(n) && !names0.contains(n) {
                        let k = choose|k: int| 0 <= k < self.names@.len() && self.names@[k] == n;
                        assert(k == names0.len());
                    }
                } else {
                    if !names0.contains(name) {
                        assert(self.names@[names0.len() as int] == name);
                    }
                }
            }
            assert(self.names@.no_duplicates()) by {
                if !names0.contains(name) {
                    assert forall|i: int, j: int| 0 <= i < self.names@.len() && 0 <= j < self.names@.len() && i != j
                        implies self.names@[i] != self.names@[j] by {
                        if i == names0.len() {
                            assert(names0[j] == self.names@[j]);
                        } else if j == names0.len() {
                            assert(names0[i] == self.names@[i]);
                        }
                    }
                }
            }
            assert(maps_inverse(self.by_name@, self.by_adapter@)) by {
                assert forall|n: u64| #[trigger] self.by_name@.contains_key(n) implies
                    self.by_adapter@.contains_key(self.by_name@[n]) && self.by_adapter@[self.by_name@[n]] == n by {
                    if n != name {
                        assert(by_name0.contains_key(n));
                        assert(by_adapter0[by_name0[n]] == n);
                        if by_name0[n] == adapter {
                            assert(by_adapter0.contains_key(adapter));
                        }
                    }
                }
                assert forall|a: u64| #[trigger] self.by_adapter@.contains_key(a) implies
                    self.by_name@.contains_key(self.by_adapter@[a]) && self.by_name@[self.by_adapter@[a]] == a by {
                    if a != adapter {
                        assert(by_adapter0.contains_key(a));
                        assert(by_name0[by_adapter0[a]] == a);
                        if by_adapter0[a] == name {
                            assert(by_name0[name] == a);
                        }
                    }
                }
            }
        }
        Ok(())
    }

    /// The adapter registered under `name`.
    pub fn get_adapter(&self, name: u64) -> (r: Result<u64, AdapterRegistryError>)
        ensures
            r == (if self.adapter_map().contains_key(name) {
                Ok::<u64, AdapterRegistryError>(self.adapter_map()[name])
            } else {
                Err(AdapterRegistryError::AdapterNameNotFound)
            }),
    {
        match self.by_name.get(&name) {
            Some(a) => Ok(*a),
            None => Err(AdapterRegistryError::AdapterNameNotFound),
        }
    }

    /// The adapter registered under `name`, if any.
    pub fn get_adapter_safe(&self, name: u64) -> (r: Option<u64>)
        ensures
            r == (if self.adapter_map().contains_key(name) { Some(self.adapter_map()[name]) } else { None::<u64> }),
    {
        match self.by_name.get(&name) {
            Some(a) => Some(*a),
            None => None,
        }
    }

    /// The name that `adapter` is registered under.
    pub fn get_adapter_name(&self, adapter: u64) -> (r: Result<u64, AdapterRegistryError>)
        ensures
            r == (if self.name_map().contains_key(adapter) {
                Ok::<u64, AdapterRegistryError>(self.name_map()[adapter])
            } else {
                Err(AdapterRegistryError::AdapterAddressNotFound)
            }),
    {
        match self.by_adapter.get(&adapter) {
            Some(n) => Ok(*n),
            None => Err(AdapterRegistryError::AdapterAddressNotFound),
        }
    }

    /// All registrations as (name, adapter) pairs, in name order.
    pub fn get_adapters(&self) -> (r: Vec<(u64, u64)>)
        requires
            self.wf(),
        ensures
            r@.len() == self.names_view().len(),
            forall|i: int| 0 <= i < r@.len() ==> #[trigger] r@[i] == (self.names_view()[i], self.adapter_map()[self.names_view()[i]]),
    {
        let mut out: Vec<(u64, u64)> = Vec::new();
        let mut i: usize = 0;
        while i < self.names.len()
            invariant
                self.wf(),
                0 <= i <= self.names@.len(),
                out@.len() == i,
                forall|j: int| 0 <= j < i ==> #[trigger] out@[j] == (self.names@[j], self.by_name@[self.names@[j]]),
            decreases self.names@.len() - i,
        {
            let name = self.names[i];
            assert(self.names@.contains(name));
            match self.by_name.get(&name) {
                Some(a) => {
                    out.push((name, *a));
                },
                None => {
                    assert(false);
                },
            }
            i = i + 1;
        }
        out
    }
}

/// A well-formed registry names each adapter once: its name map and adapter
/// map are inverse to each other, every listed name has an adapter and
/// every named adapter is listed, and no name is listed twice.
pub proof fn lemma_registry_maps_inverse(r: &AdapterRegistry)
    requires
        r.wf(),
    ensures
        maps_inverse(r.adapter_map(), r.name_map()),
        r.names_view().no_duplicates(),
        forall|n: u64| r.names_view().contains(n) <==> #[trigger] r.adapter_map().contains_key(n),
{
}

/// After a successful registration, the name reads back the adapter, the
/// adapter reads back the name, and the adapter the name had before (if
/// another) carries no name any more.
pub proof fn lemma_set_adapter_read_back(before: Map<u64, u64>, reverse: Map<u64, u64>, name: u64, adapter: u64)
    requires
        maps_inverse(before, reverse),
        set_adapter_spec(reverse, name, adapter) is Ok,
    ensures
        before.insert(name, adapter)[name] == adapter,
        reverse_after(before, reverse, name, adapter)[adapter] == name,
        before.contains_key(name) && before[name] != adapter ==>
            !reverse_after(before, reverse, name, adapter).contains_key(before[name]),
        maps_inverse(before.insert(name, adapter), reverse_after(before, reverse, name, adapter)),
{
    let after = before.insert(name, adapter);
    let rev = reverse_after(before, reverse, name, adapter);
    assert forall|n: u64| #[trigger] after.contains_key(n) implies
        rev.contains_key(after[n]) && rev[after[n]] == n by {
        if n != name {
            if before[n] == adapter {
                assert(reverse.contains_key(adapter));
            }
        }
    }
    assert forall|a: u64| #[trigger] rev.contains_key(a) implies
        after.contains_key(rev[a]) && after[rev[a]] == a by {
        if a != adapter {
            assert(reverse.contains_key(a));
            if reverse[a] == name {
                assert(before[name] == a);
            }
        }
    }
}

} // verus!

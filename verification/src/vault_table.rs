use vstd::prelude::*;
use std::collections::HashMap;
use crate::vault::Vault;

verus! {

broadcast use vstd::std_specs::hash::group_hash_axioms;

/// Vaults by id, with the ids kept in the order they were first stored.
pub struct VaultTable {
    by_id: HashMap<u64, Vault>,
    ids: Vec<u64>,
}

impl View for VaultTable {
    type V = Map<u64, Vault>;

    closed spec fn view(&self) -> Map<u64, Vault> {
        self.by_id@
    }
}

impl VaultTable {
    #[verifier::type_invariant]
    spec fn ids_match(self) -> bool {
        &&& forall|i: int| 0 <= i < self.ids@.len() ==> self.by_id@.contains_key(#[trigger] self.ids@[i])
        &&& forall|k: u64| #[trigger] self.by_id@.contains_key(k) ==> self.ids@.contains(k)
        &&& forall|i: int, j: int| 0 <= i < j < self.ids@.len() ==> #[trigger] self.ids@[i] != #[trigger] self.ids@[j]
    }

    /// A table with no vault.
    pub fn new() -> (t: VaultTable)
        ensures
            t@ == Map::<u64, Vault>::empty(),
    {
        VaultTable { by_id: HashMap::new(), ids: Vec::new() }
    }

    /// The vault stored under `id`, if any.
    pub fn get(&self, id: u64) -> (r: Option<Vault>)
        ensures
            r == (if self@.contains_key(id) {
                Some(self@[id])
            } else {
                None
            }),
    {
        match self.by_id.get(&id) {
            Some(v) => Some(*v),
            None => None,
        }
    }

    /// Stores `v` under `id`, replacing what was there.
    pub fn insert(&mut self, id: u64, v: Vault)
        ensures
            final(self)@ == old(self)@.insert(id, v),
    {
        proof {
            use_type_invariant(&*self);
        }
        let fresh = !self.by_id.contains_key(&id);
        let mut taken = VaultTable::new();
        core::mem::swap(&mut taken, self);
        let VaultTable { by_id: mut by_id, ids: mut ids } = taken;
        let ghost old_ids = ids@;
        let ghost old_map = by_id@;
        by_id.insert(id, v);
        if fresh {
            ids.push(id);
            assert forall|k: u64| #[trigger] by_id@.contains_key(k) implies ids@.contains(k) by {
                if k != id {
                    assert(old_map.contains_key(k));
                    let i = choose|i: int| 0 <= i < old_ids.len() && old_ids[i] == k;
                    assert(ids@[i] == k);
                } else {
                    assert(ids@[old_ids.len() as int] == k);
                }
            }
            assert forall|i: int, j: int| 0 <= i < j < ids@.len() implies #[trigger] ids@[i] != #[trigger] ids@[j] by {
                if j == old_ids.len() {
                    assert(old_map.contains_key(old_ids[i]));
                }
            }
        } else {
            assert forall|k: u64| #[trigger] by_id@.contains_key(k) implies ids@.contains(k) by {
                if k != id {
                    assert(old_map.contains_key(k));
                }
            }
        }
        *self = VaultTable { by_id, ids };
    }

    /// A copy of the table.
    pub fn duplicate(&self) -> (r: VaultTable)
        ensures
            r@ == self@,
    {
        proof {
            use_type_invariant(self);
        }
        let by_id = self.by_id.clone();
        let ids = self.ids.clone();
        assert(ids@ =~= self.ids@);
        VaultTable { by_id, ids }
    }

    /// Every stored vault with its id, each once, in the order the ids were
    /// first stored.
    pub fn entries(&self) -> (r: Vec<(u64, Vault)>)
        ensures
            r@.len() == self@.dom().len(),
            forall|i: int| 0 <= i < r@.len() ==> self@.contains_key(#[trigger] r@[i].0) && self@[r@[i].0] == r@[i].1,
            forall|k: u64| #[trigger] self@.contains_key(k) ==> exists|i: int| 0 <= i < r@.len() && r@[i].0 == k,
            forall|i: int, j: int| 0 <= i < j < r@.len() ==> #[trigger] r@[i].0 != #[trigger] r@[j].0,
    {
        proof {
            use_type_invariant(self);
        }
        let mut r: Vec<(u64, Vault)> = Vec::new();
        let n = self.ids.len();
        let mut i: usize = 0;
        while i < n
            invariant
                n == self.ids@.len(),
                i <= n,
                r@.len() == i,
                forall|k: int| 0 <= k < i ==> #[trigger] r@[k].0 == self.ids@[k] && self@[self.ids@[k]] == r@[k].1,
                forall|k: int| 0 <= k < n ==> self.by_id@.contains_key(#[trigger] self.ids@[k]),
            decreases n - i,
        {
            let id = self.ids[i];
            let v = match self.by_id.get(&id) {
                Some(v) => *v,
                None => {
                    proof {
                        assert(false);
                    }
                    return r;
                },
            };
            r.push((id, v));
            i = i + 1;
        }
        proof {
            assert forall|a: int, b: int|
                0 <= a < self.ids@.len() && 0 <= b < self.ids@.len() && a != b implies self.ids@[a]
                != self.ids@[b] by {
                if a < b {
                    assert(self.ids@[a] != self.ids@[b]);
                } else {
                    assert(self.ids@[b] != self.ids@[a]);
                }
            }
            assert(self.ids@.no_duplicates());
            self.ids@.unique_seq_to_set();
            assert forall|k: u64| #[trigger] self@.contains_key(k) implies exists|i: int| 0 <= i < r@.len() && r@[i].0 == k by {
                assert(self.ids@.contains(k));
                let i = choose|i: int| 0 <= i < self.ids@.len() && self.ids@[i] == k;
                assert(r@[i].0 == k);
            }
            assert(self.ids@.to_set() =~= self@.dom()) by {
                assert forall|k: u64| self.ids@.to_set().contains(k) <==> self@.dom().contains(k) by {
                    if self@.dom().contains(k) {
                        assert(self.ids@.contains(k));
                    }
                }
            }
        }
        r
    }
}

} // verus!

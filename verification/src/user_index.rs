use vstd::prelude::*;
use crate::address::Address;

verus! {

/// The ids listed for `owner` in `m`; nothing listed is the empty list.
pub open spec fn ids_of(m: Map<Address, Seq<u64>>, owner: Address) -> Seq<u64> {
    if m.contains_key(owner) {
        m[owner]
    } else {
        Seq::empty()
    }
}

/// `m` after appending `id` to the list of `owner`.
pub open spec fn with_appended(m: Map<Address, Seq<u64>>, owner: Address, id: u64) -> Map<Address, Seq<u64>> {
    m.insert(owner, ids_of(m, owner).push(id))
}

struct OwnerEntry {
    owner: Address,
    ids: Vec<u64>,
}

/// For each owner, the list of vault ids recorded for it, in the order they
/// were recorded.
pub struct UserVaultIndex {
    entries: Vec<OwnerEntry>,
    lists: Ghost<Map<Address, Seq<u64>>>,
}

impl View for UserVaultIndex {
    type V = Map<Address, Seq<u64>>;

    closed spec fn view(&self) -> Map<Address, Seq<u64>> {
        self.lists@
    }
}

impl UserVaultIndex {
    #[verifier::type_invariant]
    spec fn entries_match(self) -> bool {
        &&& forall|i: int, j: int|
            0 <= i < j < self.entries@.len() ==> #[trigger] self.entries@[i].owner
                != #[trigger] self.entries@[j].owner
        &&& forall|i: int|
            0 <= i < self.entries@.len() ==> self.lists@.contains_key(
                #[trigger] self.entries@[i].owner,
            ) && self.lists@[self.entries@[i].owner] == self.entries@[i].ids@
                && self.entries@[i].ids@.len() > 0
        &&& forall|a: Address|
            #[trigger] self.lists@.contains_key(a) ==> exists|i: int|
                0 <= i < self.entries@.len() && #[trigger] self.entries@[i].owner == a
    }

    /// An index with no lists.
    pub fn new() -> (r: UserVaultIndex)
        ensures
            r@ == Map::<Address, Seq<u64>>::empty(),
    {
        UserVaultIndex { entries: Vec::new(), lists: Ghost(Map::empty()) }
    }

    /// The position of `owner`'s entry, if it has one.
    fn position(&self, owner: &Address) -> (r: Option<usize>)
        ensures
            match r {
                Some(i) => i < self.entries@.len() && self.entries@[i as int].owner == *owner,
                None => !self@.contains_key(*owner),
            },
    {
        proof {
            use_type_invariant(self);
        }
        let n = self.entries.len();
        let mut i: usize = 0;
        while i < n
            invariant
                n == self.entries@.len(),
                i <= n,
                forall|k: int| 0 <= k < i ==> self.entries@[k].owner != *owner,
            decreases n - i,
        {
            if self.entries[i].owner == *owner {
                return Some(i);
            }
            i = i + 1;
        }
        None
    }

    /// The ids recorded for `owner`.
    pub fn get(&self, owner: &Address) -> (ids: Vec<u64>)
        ensures
            ids@ == ids_of(self@, *owner),
    {
        proof {
            use_type_invariant(self);
        }
        match self.position(owner) {
            Some(i) => {
                let ids = self.entries[i].ids.clone();
                assert(ids@ =~= self.entries@[i as int].ids@);
                ids
            },
            None => Vec::new(),
        }
    }

    /// Appends `id` to the list of `owner`.
    pub fn push(&mut self, owner: Address, id: u64)
        ensures
            final(self)@ == with_appended(old(self)@, owner, id),
    {
        proof {
            use_type_invariant(&*self);
        }
        let ghost old_lists = self.lists@;
        let ghost new_lists = with_appended(old_lists, owner, id);
        match self.position(&owner) {
            Some(i) => {
                let mut ids = self.entries[i].ids.clone();
                assert(ids@ =~= self.entries@[i as int].ids@);
                ids.push(id);
                let ghost old_entries = self.entries@;
                let mut taken = UserVaultIndex::new();
                core::mem::swap(&mut taken, self);
                let UserVaultIndex { entries: mut entries, lists: _ } = taken;
                assert(entries@ == old_entries);
                entries.set(i, OwnerEntry { owner, ids });
                assert(ids_of(old_lists, owner) == old_entries[i as int].ids@);
                assert forall|k: int| 0 <= k < entries@.len() implies #[trigger] entries@[k].owner
                    == old_entries[k].owner by {}
                assert forall|k: int|
                    0 <= k < entries@.len() implies new_lists.contains_key(
                        #[trigger] entries@[k].owner,
                    ) && new_lists[entries@[k].owner] == entries@[k].ids@ by {
                    if k != i {
                        assert(old_entries[k].owner != old_entries[i as int].owner);
                    }
                }
                assert forall|a: Address| #[trigger] new_lists.contains_key(a) implies exists|k: int|
                    0 <= k < entries@.len() && #[trigger] entries@[k].owner == a by {
                    if a == owner {
                        assert(entries@[i as int].owner == a);
                    } else {
                        assert(old_lists.contains_key(a));
                        let k = choose|k: int| 0 <= k < old_entries.len() && #[trigger] old_entries[k].owner == a;
                        assert(entries@[k].owner == a);
                    }
                }
                *self = UserVaultIndex { entries, lists: Ghost(new_lists) };
            },
            None => {
                let ghost old_entries = self.entries@;
                let mut taken = UserVaultIndex::new();
                core::mem::swap(&mut taken, self);
                let UserVaultIndex { entries: mut entries, lists: _ } = taken;
                assert(entries@ == old_entries);
                let mut ids: Vec<u64> = Vec::new();
                ids.push(id);
                assert(ids@ =~= ids_of(old_lists, owner).push(id));
                entries.push(OwnerEntry { owner, ids });
                let ghost n = old_entries.len() as int;
                assert forall|k: int| 0 <= k < n implies #[trigger] entries@[k].owner != owner by {
                    assert(old_lists.contains_key(old_entries[k].owner));
                }
                assert forall|k: int|
                    0 <= k < entries@.len() implies new_lists.contains_key(
                        #[trigger] entries@[k].owner,
                    ) && new_lists[entries@[k].owner] == entries@[k].ids@ by {
                    if k < n {
                        assert(entries@[k] == old_entries[k]);
                    }
                }
                assert forall|a: Address| #[trigger] new_lists.contains_key(a) implies exists|k: int|
                    0 <= k < entries@.len() && #[trigger] entries@[k].owner == a by {
                    if a == owner {
                        assert(entries@[n].owner == a);
                    } else {
                        assert(old_lists.contains_key(a));
                        let k = choose|k: int| 0 <= k < old_entries.len() && #[trigger] old_entries[k].owner == a;
                        assert(entries@[k].owner == a);
                    }
                }
                *self = UserVaultIndex { entries, lists: Ghost(new_lists) };
            },
        }
    }

    /// Every owner with its list, each owner once, in the order the owners
    /// were first recorded.
    pub fn entries(&self) -> (r: Vec<(Address, Vec<u64>)>)
        ensures
            forall|i: int|
                0 <= i < r@.len() ==> self@.contains_key(#[trigger] r@[i].0) && self@[r@[i].0] == r@[i].1@,
            forall|a: Address| #[trigger] self@.contains_key(a) ==> exists|i: int| 0 <= i < r@.len() && r@[i].0 == a,
            forall|i: int, j: int| 0 <= i < j < r@.len() ==> #[trigger] r@[i].0 != #[trigger] r@[j].0,
            forall|i: int| 0 <= i < r@.len() ==> #[trigger] r@[i].1@.len() > 0,
    {
        proof {
            use_type_invariant(self);
        }
        let mut r: Vec<(Address, Vec<u64>)> = Vec::new();
        let n = self.entries.len();
        let mut i: usize = 0;
        while i < n
            invariant
                n == self.entries@.len(),
                i <= n,
                r@.len() == i,
                forall|k: int|
                    0 <= k < i ==> #[trigger] r@[k].0 == self.entries@[k].owner && r@[k].1@ == self.entries@[k].ids@,
            decreases n - i,
        {
            let ids = self.entries[i].ids.clone();
            assert(ids@ =~= self.entries@[i as int].ids@);
            r.push((self.entries[i].owner, ids));
            i = i + 1;
        }
        assert forall|a: Address| #[trigger] self@.contains_key(a) implies exists|k: int| 0 <= k < r@.len() && r@[k].0 == a by {
            let k = choose|k: int| 0 <= k < self.entries@.len() && #[trigger] self.entries@[k].owner == a;
            assert(r@[k].0 == a);
        }
        assert forall|x: int| 0 <= x < r@.len() implies #[trigger] r@[x].1@.len() > 0 by {
            assert(r@[x].0 == self.entries@[x].owner);
            assert(self.lists@.contains_key(self.entries@[x].owner));
        }
        assert forall|x: int, y: int| 0 <= x < y < r@.len() implies #[trigger] r@[x].0 != #[trigger] r@[y].0 by {
            assert(self.entries@[x].owner != self.entries@[y].owner);
        }
        r
    }
}

} // verus!

//! The inventories: for each account the identifiers it owns, in a list that
//! holds at most `MAX_KITTIES_OWNED` of them.

use crate::bounded::{
    owned_at, owned_ids, owned_len, owned_new, owned_swap_remove, owned_try_push, OwnedKitties,
};
use crate::lookup::{find, is_first_at, lemma_index_of, lemma_position, position, same_bytes};
use crate::types::{AccountId, Error, MAX_KITTIES_OWNED};
use vstd::prelude::*;

verus! {

/// The inventories while nobody owns anything: empty for every account.
pub open spec fn nothing_owned() -> Map<AccountId, Seq<[u8; 32]>> {
    Map::total(|who: AccountId| Seq::<[u8; 32]>::empty())
}

/// `ids` after the item at `i` has left and the last item has taken its place.
pub open spec fn swap_removed(ids: Seq<[u8; 32]>, i: int) -> Seq<[u8; 32]> {
    ids.update(i, ids.last()).drop_last()
}

/// `ids` without the first occurrence of `id`, the last item in its place.
pub open spec fn without(ids: Seq<[u8; 32]>, id: [u8; 32]) -> Seq<[u8; 32]> {
    swap_removed(ids, position(ids, id))
}

/// What leaving does to a list in which nothing stands twice: the list is one
/// shorter, still without repeats, and holds what it held, but for `id`.
pub proof fn lemma_without(ids: Seq<[u8; 32]>, id: [u8; 32])
    requires
        ids.no_duplicates(),
        ids.contains(id),
    ensures
        without(ids, id).len() == ids.len() - 1,
        without(ids, id).no_duplicates(),
        forall|other: [u8; 32]| #[trigger]
            without(ids, id).contains(other) <==> ids.contains(other) && other != id,
{
    let k = ids.index_of(id);
    assert(is_first_at(ids, id, k));
    lemma_position(ids, id, k);
    let rest = without(ids, id);
    let last = ids.len() - 1;
    assert forall|other: [u8; 32]| ids.contains(other) && other != id implies rest.contains(
        other,
    ) by {
        let j = ids.index_of(other);
        if j < last {
            assert(rest[j] == other);
        } else {
            assert(rest[k] == other);
        }
    }
    assert forall|other: [u8; 32]| rest.contains(other) implies ids.contains(other) && other
        != id by {
        let j = rest.index_of(other);
        if j == k {
            assert(ids[last] == other);
        } else {
            assert(ids[j] == other);
        }
    }
}

/// Finds the first position of `id` in a list.
fn find_owned(list: &OwnedKitties, id: &[u8; 32]) -> (found: Option<usize>)
    ensures
        match found {
            Some(i) => is_first_at(owned_ids(*list), *id, i as int),
            None => !owned_ids(*list).contains(*id),
        },
{
    let n = owned_len(list);
    let mut i: usize = 0;
    while i < n
        invariant
            i <= n,
            n == owned_ids(*list).len(),
            forall|j: int| 0 <= j < i ==> owned_ids(*list)[j] != *id,
        decreases n - i,
    {
        let held = owned_at(list, i);
        if same_bytes(&held, id) {
            return Some(i);
        }
        i += 1;
    }
    None
}

/// From each account to the list of what it owns. An account that was never
/// given a kitty has the empty list.
pub struct KittiesOwned {
    owners: Vec<AccountId>,
    lists: Vec<OwnedKitties>,
}

impl View for KittiesOwned {
    type V = Map<AccountId, Seq<[u8; 32]>>;

    /// The inventory of every account.
    open spec fn view(&self) -> Map<AccountId, Seq<[u8; 32]>> {
        Map::total(|who: AccountId| self.inventory(who))
    }
}

impl KittiesOwned {
    /// Each account is listed once, and no list is longer than the bound.
    pub closed spec fn wf(&self) -> bool {
        &&& self.owners@.len() == self.lists@.len()
        &&& self.owners@.no_duplicates()
        &&& forall|i: int|
            0 <= i < self.lists@.len() ==> owned_ids(#[trigger] self.lists@[i]).len()
                <= MAX_KITTIES_OWNED
    }

    /// What `who` owns, in the order of its list.
    pub closed spec fn inventory(&self, who: AccountId) -> Seq<[u8; 32]> {
        if self.owners@.contains(who) {
            owned_ids(self.lists@[self.owners@.index_of(who)])
        } else {
            Seq::empty()
        }
    }

    /// No inventory exceeds the bound.
    pub proof fn lemma_bounded(&self, who: AccountId)
        requires
            self.wf(),
        ensures
            self@[who].len() <= MAX_KITTIES_OWNED,
    {
    }

    /// The index in which every inventory is empty.
    pub fn new() -> (index: Self)
        ensures
            index.wf(),
            index@ == nothing_owned(),
    {
        let index = KittiesOwned { owners: Vec::new(), lists: Vec::new() };
        assert(index@ =~= nothing_owned());
        index
    }

    /// The number of kitties that `who` owns.
    pub fn count(&self, who: &AccountId) -> (n: usize)
        requires
            self.wf(),
        ensures
            n == self@[*who].len(),
            n <= MAX_KITTIES_OWNED,
    {
        match find(&self.owners, who) {
            Some(i) => {
                proof {
                    lemma_index_of(self.owners@, i as int);
                }
                owned_len(&self.lists[i])
            },
            None => 0,
        }
    }

    /// What `who` owns, in the order of its list.
    pub fn get(&self, who: &AccountId) -> (ids: Vec<[u8; 32]>)
        requires
            self.wf(),
        ensures
            ids@ == self@[*who],
    {
        let mut ids: Vec<[u8; 32]> = Vec::new();
        match find(&self.owners, who) {
            Some(i) => {
                proof {
                    lemma_index_of(self.owners@, i as int);
                }
                let list = &self.lists[i];
                let n = owned_len(list);
                let mut k: usize = 0;
                while k < n
                    invariant
                        k <= n,
                        n == owned_ids(*list).len(),
                        ids@ == owned_ids(*list).take(k as int),
                    decreases n - k,
                {
                    ids.push(owned_at(list, k));
                    k += 1;
                }
                assert(owned_ids(*list).take(n as int) == owned_ids(*list));
            },
            None => {},
        }
        ids
    }

    /// Appends `id` to the inventory of `who`, unless that inventory is full:
    /// then nothing changes and `TooManyOwned` comes back.
    pub fn try_append(&mut self, who: AccountId, id: [u8; 32]) -> (appended: Result<(), Error>)
        requires
            old(self).wf(),
        ensures
            final(self).wf(),
            match appended {
                Ok(_) => old(self)@[who].len() < MAX_KITTIES_OWNED
                    && final(self)@ == old(self)@.insert(who, old(self)@[who].push(id)),
                Err(e) => e == Error::TooManyOwned && old(self)@[who].len() >= MAX_KITTIES_OWNED
                    && final(self)@ == old(self)@,
            },
    {
        match find(&self.owners, &who) {
            Some(i) => {
                proof {
                    lemma_index_of(self.owners@, i as int);
                }
                match owned_try_push(&mut self.lists[i], id) {
                    Ok(_) => {
                        proof {
                            self.lemma_replaced(*old(self), i as int);
                        }
                        Ok(())
                    },
                    Err(_) => {
                        proof {
                            self.lemma_replaced(*old(self), i as int);
                            assert(self@ =~= old(self)@);
                        }
                        Err(Error::TooManyOwned)
                    },
                }
            },
            None => {
                let mut list = owned_new();
                match owned_try_push(&mut list, id) {
                    Ok(_) => {
                        self.owners.push(who);
                        self.lists.push(list);
                        proof {
                            let n = old(self).owners@.len() as int;
                            assert(self.owners@.no_duplicates());
                            assert forall|other: AccountId|
                                other != who implies self.inventory(other) == old(
                                self,
                            ).inventory(other) by {
                                if old(self).owners@.contains(other) {
                                    let j = old(self).owners@.index_of(other);
                                    assert(self.owners@[j] == other);
                                    lemma_index_of(self.owners@, j);
                                } else {
                                    if self.owners@.contains(other) {
                                        let j = self.owners@.index_of(other);
                                        assert(j < n);
                                        assert(old(self).owners@[j] == other);
                                    }
                                }
                            }
                            assert(self.owners@[n] == who);
                            lemma_index_of(self.owners@, n);
                            assert(self@ =~= old(self)@.insert(who, old(self)@[who].push(id)));
                        }
                        Ok(())
                    },
                    Err(_) => Err(Error::TooManyOwned),
                }
            },
        }
    }

    /// Takes the first occurrence of `id` out of the inventory of `who`; the
    /// last item of that inventory takes its place. Where `who` does not own
    /// `id`, nothing changes and `NoKitty` comes back.
    pub fn remove(&mut self, who: &AccountId, id: &[u8; 32]) -> (removed: Result<(), Error>)
        requires
            old(self).wf(),
        ensures
            final(self).wf(),
            match removed {
                Ok(_) => old(self)@[*who].contains(*id) && final(self)@ == old(self)@.insert(
                    *who,
                    without(old(self)@[*who], *id),
                ),
                Err(e) => e == Error::NoKitty && !old(self)@[*who].contains(*id) && final(self)@
                    == old(self)@,
            },
    {
        match find(&self.owners, who) {
            Some(i) => {
                proof {
                    lemma_index_of(self.owners@, i as int);
                }
                match find_owned(&self.lists[i], id) {
                    Some(k) => {
                        proof {
                            lemma_position(old(self)@[*who], *id, k as int);
                        }
                        owned_swap_remove(&mut self.lists[i], k);
                        proof {
                            self.lemma_replaced(*old(self), i as int);
                        }
                        Ok(())
                    },
                    None => Err(Error::NoKitty),
                }
            },
            None => Err(Error::NoKitty),
        }
    }

    /// After the list of one account was replaced, that account's inventory
    /// is the new list and every other inventory is as before.
    proof fn lemma_replaced(&self, before: Self, i: int)
        requires
            before.owners@.no_duplicates(),
            before.owners@.len() == before.lists@.len(),
            0 <= i < before.owners@.len(),
            self.owners@ == before.owners@,
            self.lists@ == before.lists@.update(i, self.lists@[i]),
        ensures
            self@ == before@.insert(before.owners@[i], owned_ids(self.lists@[i])),
    {
        let who = before.owners@[i];
        lemma_index_of(before.owners@, i);
        assert forall|other: AccountId| other != who implies self.inventory(other)
            == before.inventory(other) by {
            if before.owners@.contains(other) {
                let j = before.owners@.index_of(other);
                assert(j != i);
            }
        }
        assert(self@ =~= before@.insert(who, owned_ids(self.lists@[i])));
    }
}

} // verus!

//! The table of kitties: from each identifier to the kitty's record.

use crate::lookup::{find, lemma_index_of};
use crate::types::Kitty;
use vstd::prelude::*;

verus! {

/// From each identifier that was minted to the record of its kitty.
pub struct Kitties {
    ids: Vec<[u8; 32]>,
    records: Vec<Kitty>,
}

impl View for Kitties {
    type V = Map<[u8; 32], Kitty>;

    closed spec fn view(&self) -> Map<[u8; 32], Kitty> {
        Map::new(
            |id: [u8; 32]| self.ids@.contains(id),
            |id: [u8; 32]| self.records@[self.ids@.index_of(id)],
        )
    }
}

impl Kitties {
    /// Each identifier is listed once, beside its record.
    pub closed spec fn wf(&self) -> bool {
        &&& self.ids@.len() == self.records@.len()
        &&& self.ids@.no_duplicates()
    }

    /// The table holds as many kitties as identifiers are listed.
    proof fn lemma_len(&self)
        requires
            self.wf(),
        ensures
            self@.dom().finite(),
            self@.dom().len() == self.ids@.len(),
    {
        assert(self@.dom() =~= self.ids@.to_set());
        vstd::seq_lib::seq_to_set_is_finite(self.ids@);
        self.ids@.unique_seq_to_set();
    }

    /// The table without kitties.
    pub fn new() -> (table: Self)
        ensures
            table.wf(),
            table@ == Map::<[u8; 32], Kitty>::empty(),
    {
        let table = Kitties { ids: Vec::new(), records: Vec::new() };
        assert(table@ =~= Map::<[u8; 32], Kitty>::empty());
        table
    }

    /// The number of kitties in the table.
    pub fn len(&self) -> (n: usize)
        requires
            self.wf(),
        ensures
            self@.dom().finite(),
            n == self@.dom().len(),
    {
        proof {
            self.lemma_len();
        }
        self.ids.len()
    }

    /// Whether a kitty has this identifier.
    pub fn contains_key(&self, id: &[u8; 32]) -> (held: bool)
        ensures
            held == self@.contains_key(*id),
    {
        find(&self.ids, id).is_some()
    }

    /// The record of the kitty with this identifier, if there is one.
    pub fn get(&self, id: &[u8; 32]) -> (record: Option<Kitty>)
        requires
            self.wf(),
        ensures
            match record {
                Some(kitty) => self@.contains_key(*id) && kitty == self@[*id],
                None => !self@.contains_key(*id),
            },
    {
        match find(&self.ids, id) {
            Some(i) => {
                proof {
                    lemma_index_of(self.ids@, i as int);
                }
                Some(self.records[i])
            },
            None => None,
        }
    }

    /// Puts `kitty` under `id`, in place of the record that was there, if any.
    pub fn insert(&mut self, id: [u8; 32], kitty: Kitty)
        requires
            old(self).wf(),
        ensures
            final(self).wf(),
            final(self)@ == old(self)@.insert(id, kitty),
    {
        match find(&self.ids, &id) {
            Some(i) => {
                self.records[i] = kitty;
                proof {
                    lemma_index_of(self.ids@, i as int);
                    assert forall|other: [u8; 32]|
                        other != id && self.ids@.contains(other) implies self.ids@.index_of(other)
                        != i by {}
                    assert(self@ =~= old(self)@.insert(id, kitty));
                }
            },
            None => {
                self.ids.push(id);
                self.records.push(kitty);
                proof {
                    let n = old(self).ids@.len() as int;
                    assert(self.ids@.no_duplicates());
                    assert(self.ids@[n] == id);
                    lemma_index_of(self.ids@, n);
                    assert(self@.contains_key(id) && self@[id] == kitty);
                    assert forall|other: [u8; 32]| other != id implies (self@.contains_key(other)
                        <==> old(self)@.contains_key(other)) by {
                        if old(self).ids@.contains(other) {
                            let j = old(self).ids@.index_of(other);
                            assert(self.ids@[j] == other);
                        } else if self.ids@.contains(other) {
                            let j = self.ids@.index_of(other);
                            assert(old(self).ids@[j] == other);
                        }
                    }
                    let before = old(self)@;
                    assert forall|other: [u8; 32]|
                        other != id && self@.contains_key(other) implies self@[other]
                        == before[other] by {
                        let j = old(self).ids@.index_of(other);
                        assert(self.ids@[j] == other);
                        lemma_index_of(self.ids@, j);
                    }
                    assert(self@ =~= old(self)@.insert(id, kitty));
                }
            },
        }
    }
}

} // verus!

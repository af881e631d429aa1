//! A secondary index: a mapping from a key (an owning account or a source
//! collection) to the set of active listing identifiers under that key.
//! Inserting a present identifier and removing an absent one are no-ops.

use vstd::prelude::*;

use crate::assoc_map::AssocMap;
use crate::string_set::StringSet;
use crate::string_set::lemma_string_set_finite;

verus! {

pub struct SaleIndex {
    pub map: AssocMap<StringSet>,
}

/// The effect of inserting `id` under `key` on an index view.
pub open spec fn spec_index_insert(
    m: Map<Seq<char>, Set<Seq<char>>>,
    key: Seq<char>,
    id: Seq<char>,
) -> Map<Seq<char>, Set<Seq<char>>> {
    let s = if m.contains_key(key) {
        m[key]
    } else {
        Set::empty()
    };
    m.insert(key, s.insert(id))
}

/// The effect of removing `id` under `key` on an index view.
pub open spec fn spec_index_remove(
    m: Map<Seq<char>, Set<Seq<char>>>,
    key: Seq<char>,
    id: Seq<char>,
) -> Map<Seq<char>, Set<Seq<char>>> {
    if m.contains_key(key) {
        m.insert(key, m[key].remove(id))
    } else {
        m
    }
}

impl SaleIndex {
    /// The index as a mathematical map from keys to sets of listing ids.
    pub open spec fn view(&self) -> Map<Seq<char>, Set<Seq<char>>> {
        Map::new(|k: Seq<char>| self.map@.contains_key(k), |k: Seq<char>| self.map@[k]@)
    }

    pub open spec fn wf(&self) -> bool {
        &&& self.map.wf()
        &&& forall|k: Seq<char>| #[trigger] self.map@.contains_key(k) ==> self.map@[k].wf()
    }

    /// The number of listing ids under `key`; zero for an absent key.
    pub open spec fn count_of(&self, key: Seq<char>) -> int {
        if self@.contains_key(key) {
            self@[key].len() as int
        } else {
            0
        }
    }

    pub fn new() -> (r: SaleIndex)
        ensures
            r.wf(),
            r@ == Map::<Seq<char>, Set<Seq<char>>>::empty(),
    {
        let r = SaleIndex { map: AssocMap::new() };
        proof {
            assert(r@ =~= Map::<Seq<char>, Set<Seq<char>>>::empty());
        }
        r
    }

    /// Adds `id` to the set under `key`; idempotent for a present id.
    pub fn insert(&mut self, key: &String, id: String)
        requires
            old(self).wf(),
        ensures
            final(self).wf(),
            final(self)@ == spec_index_insert(old(self)@, key@, id@),
    {
        let mut set = match self.map.take(key) {
            Some(s) => s,
            None => StringSet::new(),
        };
        set.insert(id);
        self.map.insert(key.clone(), set);
        proof {
            assert(self@ =~= spec_index_insert(old(self)@, key@, id@));
        }
    }

    /// Drops `id` from the set under `key`; a no-op for an absent key or id.
    pub fn remove(&mut self, key: &String, id: &String)
        requires
            old(self).wf(),
        ensures
            final(self).wf(),
            final(self)@ == spec_index_remove(old(self)@, key@, id@),
    {
        match self.map.take(key) {
            Some(mut set) => {
                set.remove(id);
                self.map.insert(key.clone(), set);
                proof {
                    assert(self@ =~= spec_index_remove(old(self)@, key@, id@));
                }
            },
            None => {
                proof {
                    assert(self@ =~= spec_index_remove(old(self)@, key@, id@));
                }
            },
        }
    }

    /// How many listing ids stand under `key`, without scanning the set.
    pub fn count(&self, key: &String) -> (r: usize)
        requires
            self.wf(),
        ensures
            r == self.count_of(key@),
    {
        match self.map.get(key) {
            Some(set) => set.len(),
            None => 0,
        }
    }

    /// The set of listing ids under `key`, if the key is present.
    pub fn list(&self, key: &String) -> (r: Option<&StringSet>)
        requires
            self.wf(),
        ensures
            match r {
                Some(s) => self@.contains_key(key@) && s@ == self@[key@],
                None => !self@.contains_key(key@),
            },
    {
        self.map.get(key)
    }

    /// Every set held by a well-formed index is finite.
    pub proof fn lemma_counts_finite(&self, key: Seq<char>)
        requires
            self@.contains_key(key),
        ensures
            self@[key].finite(),
    {
        broadcast use lemma_string_set_finite;

    }
}

} // verus!

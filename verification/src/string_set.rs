//! A set of strings backed by a duplicate-free vector, viewed as a
//! mathematical `Set<Seq<char>>`. Insertion is idempotent and removal of an
//! absent element is a no-op, as the index contract requires.

use vstd::prelude::*;

verus! {

pub struct StringSet {
    items: Vec<String>,
}

impl StringSet {
    /// The members of the set, as character sequences.
    pub closed spec fn view(&self) -> Set<Seq<char>> {
        self.items@.map_values(|s: String| s@).to_set()
    }

    /// The backing vector holds each member exactly once.
    pub closed spec fn wf(&self) -> bool {
        self.items@.map_values(|s: String| s@).no_duplicates()
    }

    pub fn new() -> (r: StringSet)
        ensures
            r.wf(),
            r@ == Set::<Seq<char>>::empty(),
    {
        let r = StringSet { items: Vec::new() };
        proof {
            assert(r@ =~= Set::<Seq<char>>::empty());
        }
        r
    }

    pub fn contains(&self, x: &String) -> (r: bool)
        ensures
            r == self@.contains(x@),
    {
        let ghost keys = self.items@.map_values(|s: String| s@);
        let mut i: usize = 0;
        while i < self.items.len()
            invariant
                i <= self.items.len(),
                keys == self.items@.map_values(|s: String| s@),
                forall|j: int| 0 <= j < i ==> keys[j] != x@,
            decreases self.items.len() - i,
        {
            if self.items[i].eq(x) {
                assert(keys[i as int] == x@);
                return true;
            }
            i += 1;
        }
        assert(!self@.contains(x@)) by {
            if keys.contains(x@) {
                let j = choose|j: int| 0 <= j < keys.len() && keys[j] == x@;
            }
        }
        false
    }

    /// Inserting a member that is already present leaves the set unchanged.
    pub fn insert(&mut self, x: String)
        requires
            old(self).wf(),
        ensures
            final(self).wf(),
            final(self)@ == old(self)@.insert(x@),
    {
        let ghost oldkeys = self.items@.map_values(|s: String| s@);
        if !self.contains(&x) {
            let ghost xv = x@;
            self.items.push(x);
            proof {
                let keys = self.items@.map_values(|s: String| s@);
                assert(keys =~= oldkeys + seq![xv]);
                Seq::lemma_to_set_insert_commutes(oldkeys, xv);
                assert(keys.no_duplicates()) by {
                    assert(forall|j: int| 0 <= j < oldkeys.len() ==> keys[j] == oldkeys[j]);
                    assert(!oldkeys.contains(xv));
                }
            }
        } else {
            proof {
                assert(self@ =~= old(self)@.insert(x@));
            }
        }
    }

    /// Removing an absent member is a no-op.
    pub fn remove(&mut self, x: &String)
        requires
            old(self).wf(),
        ensures
            final(self).wf(),
            final(self)@ == old(self)@.remove(x@),
    {
        let ghost oldkeys = self.items@.map_values(|s: String| s@);
        let mut i: usize = 0;
        while i < self.items.len()
            invariant
                i <= self.items.len(),
                *self == *old(self),
                oldkeys == self.items@.map_values(|s: String| s@),
                oldkeys.no_duplicates(),
                forall|j: int| 0 <= j < i ==> oldkeys[j] != x@,
            decreases self.items.len() - i,
        {
            if self.items[i].eq(x) {
                self.items.remove(i);
                proof {
                    let keys = self.items@.map_values(|s: String| s@);
                    assert(oldkeys[i as int] == x@);
                    assert(keys =~= oldkeys.remove(i as int));
                    lemma_remove_keeps_no_duplicates(oldkeys, i as int);
                    lemma_remove_to_set(oldkeys, i as int);
                    assert(keys.to_set() == oldkeys.remove(i as int).to_set());
                    assert(self@ =~= old(self)@.remove(x@));
                }
                return ;
            }
            i += 1;
        }
        proof {
            assert(!oldkeys.contains(x@)) by {
                if oldkeys.contains(x@) {
                    let j = choose|j: int| 0 <= j < oldkeys.len() && oldkeys[j] == x@;
                }
            }
            assert(self@ =~= old(self)@.remove(x@));
        }
    }

    /// The number of members.
    pub fn len(&self) -> (r: usize)
        requires
            self.wf(),
        ensures
            r == self@.len(),
    {
        proof {
            self.items@.map_values(|s: String| s@).unique_seq_to_set();
        }
        self.items.len()
    }

    /// The members, in the backing order; each appears exactly once.
    pub fn as_vec(&self) -> (r: &Vec<String>)
        ensures
            r@.map_values(|s: String| s@).to_set() == self@,
    {
        &self.items
    }
}

/// Every `StringSet` view is a finite set.
pub broadcast proof fn lemma_string_set_finite(s: StringSet)
    ensures
        #[trigger] s@.finite(),
{
    broadcast use vstd::seq_lib::seq_to_set_is_finite;

}

/// Removing one position from a duplicate-free sequence keeps it duplicate-free.
proof fn lemma_remove_keeps_no_duplicates(s: Seq<Seq<char>>, i: int)
    requires
        s.no_duplicates(),
        0 <= i < s.len(),
    ensures
        s.remove(i).no_duplicates(),
{
    let r = s.remove(i);
    assert forall|p: int, q: int| 0 <= p < r.len() && 0 <= q < r.len() && p != q implies r[p]
        != r[q] by {
        let p0 = if p < i { p } else { p + 1 };
        let q0 = if q < i { q } else { q + 1 };
        assert(r[p] == s[p0]);
        assert(r[q] == s[q0]);
    }
}

/// Removing the only position that holds a value removes that value from the set view.
proof fn lemma_remove_to_set(s: Seq<Seq<char>>, i: int)
    requires
        s.no_duplicates(),
        0 <= i < s.len(),
    ensures
        s.remove(i).to_set() == s.to_set().remove(s[i]),
{
    let r = s.remove(i);
    assert forall|e: Seq<char>| r.to_set().contains(e) implies s.to_set().remove(s[i]).contains(
        e,
    ) by {
        let j = choose|j: int| 0 <= j < r.len() && r[j] == e;
        let j0 = if j < i { j } else { j + 1 };
        assert(s[j0] == e);
    }
    assert forall|e: Seq<char>| s.to_set().remove(s[i]).contains(e) implies r.to_set().contains(
        e,
    ) by {
        let j = choose|j: int| 0 <= j < s.len() && s[j] == e;
        if j < i {
            assert(r[j] == e);
        } else {
            assert(r[j - 1] == e);
        }
    }
    assert(r.to_set() =~= s.to_set().remove(s[i]));
}

} // verus!

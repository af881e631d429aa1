//! A string-keyed association map backed by a duplicate-free vector of
//! pairs, viewed as a mathematical `Map<Seq<char>, V>`.

use vstd::prelude::*;

verus! {

pub struct AssocMap<V> {
    pairs: Vec<(String, V)>,
}

/// The key sequences of a pair sequence, in backing order.
pub open spec fn keys_of<V>(s: Seq<(String, V)>) -> Seq<Seq<char>> {
    s.map_values(|p: (String, V)| p.0@)
}

/// The mathematical map described by a pair sequence with distinct keys.
pub open spec fn map_of<V>(s: Seq<(String, V)>) -> Map<Seq<char>, V> {
    Map::new(
        |k: Seq<char>| keys_of(s).contains(k),
        |k: Seq<char>|
            {
                let i = choose|i: int| 0 <= i < s.len() && s[i].0@ == k;
                s[i].1
            },
    )
}

/// Under distinct keys, position `i` answers for its own key.
proof fn lemma_map_of_index<V>(s: Seq<(String, V)>, i: int)
    requires
        keys_of(s).no_duplicates(),
        0 <= i < s.len(),
    ensures
        map_of(s).contains_key(s[i].0@),
        map_of(s)[s[i].0@] == s[i].1,
{
    assert(keys_of(s)[i] == s[i].0@);
    assert(keys_of(s).contains(s[i].0@));
    let j = choose|j: int| 0 <= j < s.len() && s[j].0@ == s[i].0@;
    assert(keys_of(s)[j] == s[j].0@);
    assert(j == i);
}

/// Appending a fresh key inserts it into the map view.
proof fn lemma_map_of_push<V>(s: Seq<(String, V)>, k: String, v: V)
    requires
        keys_of(s).no_duplicates(),
        !keys_of(s).contains(k@),
    ensures
        keys_of(s.push((k, v))).no_duplicates(),
        map_of(s.push((k, v))) == map_of(s).insert(k@, v),
{
    let t = s.push((k, v));
    assert(keys_of(t) =~= keys_of(s).push(k@));
    assert(keys_of(t).no_duplicates()) by {
        assert(forall|p: int| 0 <= p < s.len() ==> keys_of(t)[p] == keys_of(s)[p]);
        assert(forall|p: int| 0 <= p < s.len() ==> keys_of(s)[p] != k@);
    }
    assert forall|e: Seq<char>| #[trigger] map_of(t).contains_key(e) implies map_of(s).insert(
        k@,
        v,
    ).contains_key(e) by {
        let i = choose|i: int| 0 <= i < t.len() && t[i].0@ == e;
        if i < s.len() {
            assert(keys_of(s)[i] == e);
        }
    }
    assert forall|e: Seq<char>| #[trigger] map_of(s).insert(k@, v).contains_key(e) implies map_of(
        t,
    ).contains_key(e) by {
        if e == k@ {
            assert(keys_of(t)[s.len() as int] == k@);
        } else {
            let i = choose|i: int| 0 <= i < s.len() && keys_of(s)[i] == e;
            assert(t[i].0@ == e);
            assert(keys_of(t)[i] == e);
        }
    }
    assert forall|e: Seq<char>| #[trigger] map_of(t).contains_key(e) implies map_of(t)[e] == map_of(
        s,
    ).insert(k@, v)[e] by {
        let i = choose|i: int| 0 <= i < t.len() && t[i].0@ == e;
        if e == k@ {
            assert(keys_of(t)[i] == e);
            assert(forall|p: int| 0 <= p < s.len() ==> keys_of(t)[p] != k@);
            assert(i == s.len());
        } else {
            assert(i < s.len()) by {
                assert(t[s.len() as int].0@ == k@);
            }
            assert(keys_of(s)[i] == e);
            let j = choose|j: int| 0 <= j < s.len() && s[j].0@ == e;
            assert(keys_of(s)[j] == e);
            assert(j == i);
        }
    }
    assert(map_of(t) =~= map_of(s).insert(k@, v));
}

/// Removing position `i` removes exactly its key from the map view.
proof fn lemma_map_of_remove<V>(s: Seq<(String, V)>, i: int)
    requires
        keys_of(s).no_duplicates(),
        0 <= i < s.len(),
    ensures
        keys_of(s.remove(i)).no_duplicates(),
        map_of(s.remove(i)) == map_of(s).remove(s[i].0@),
{
    let r = s.remove(i);
    let dropped = s[i].0@;
    assert(keys_of(r) =~= keys_of(s).remove(i));
    assert(keys_of(r).no_duplicates()) by {
        assert forall|p: int, q: int|
            0 <= p < r.len() && 0 <= q < r.len() && p != q implies keys_of(r)[p] != keys_of(
            r,
        )[q] by {
            let p0 = if p < i { p } else { p + 1 };
            let q0 = if q < i { q } else { q + 1 };
            assert(keys_of(r)[p] == keys_of(s)[p0]);
            assert(keys_of(r)[q] == keys_of(s)[q0]);
        }
    }
    assert forall|e: Seq<char>| #[trigger] map_of(r).contains_key(e) implies map_of(s).remove(
        dropped,
    ).contains_key(e) by {
        let j = choose|j: int| 0 <= j < r.len() && r[j].0@ == e;
        let j0 = if j < i { j } else { j + 1 };
        assert(r[j] == s[j0]);
        assert(keys_of(s)[j0] == e);
        assert(keys_of(s)[i] == dropped);
    }
    assert forall|e: Seq<char>| #[trigger] map_of(s).remove(dropped).contains_key(e) implies map_of(
        r,
    ).contains_key(e) by {
        let j = choose|j: int| 0 <= j < s.len() && keys_of(s)[j] == e;
        assert(s[j].0@ == e);
        assert(j != i);
        if j < i {
            assert(r[j] == s[j]);
            assert(keys_of(r)[j] == e);
        } else {
            assert(r[j - 1] == s[j]);
            assert(keys_of(r)[j - 1] == e);
        }
    }
    assert forall|e: Seq<char>| #[trigger] map_of(r).contains_key(e) implies map_of(r)[e] == map_of(
        s,
    ).remove(dropped)[e] by {
        let j = choose|j: int| 0 <= j < r.len() && r[j].0@ == e;
        let j0 = if j < i { j } else { j + 1 };
        assert(r[j] == s[j0]);
        let j1 = choose|j1: int| 0 <= j1 < s.len() && s[j1].0@ == e;
        assert(keys_of(s)[j1] == e);
        assert(keys_of(s)[j0] == e);
        assert(j1 == j0);
    }
    assert(map_of(r) =~= map_of(s).remove(dropped));
}

impl<V> AssocMap<V> {
    /// The mathematical map held by this container.
    pub closed spec fn view(&self) -> Map<Seq<char>, V> {
        map_of(self.pairs@)
    }

    /// The backing vector holds each key exactly once.
    pub closed spec fn wf(&self) -> bool {
        keys_of(self.pairs@).no_duplicates()
    }

    pub fn new() -> (r: AssocMap<V>)
        ensures
            r.wf(),
            r@ == Map::<Seq<char>, V>::empty(),
    {
        let r = AssocMap { pairs: Vec::new() };
        proof {
            assert(r@ =~= Map::<Seq<char>, V>::empty());
        }
        r
    }

    /// Index of the pair holding key `k`, if any.
    fn index_of(&self, k: &String) -> (r: Option<usize>)
        ensures
            match r {
                Some(i) => i < self.pairs@.len() && self.pairs@[i as int].0@ == k@,
                None => !keys_of(self.pairs@).contains(k@),
            },
    {
        let mut i: usize = 0;
        while i < self.pairs.len()
            invariant
                i <= self.pairs.len(),
                forall|j: int| 0 <= j < i ==> keys_of(self.pairs@)[j] != k@,
            decreases self.pairs.len() - i,
        {
            if self.pairs[i].0.eq(k) {
                assert(self.pairs@[i as int].0@ == k@);
                return Some(i);
            }
            assert(keys_of(self.pairs@)[i as int] != k@);
            i += 1;
        }
        proof {
            if keys_of(self.pairs@).contains(k@) {
                let j = choose|j: int|
                    0 <= j < self.pairs@.len() && keys_of(self.pairs@)[j] == k@;
            }
        }
        None
    }

    pub fn contains_key(&self, k: &String) -> (r: bool)
        requires
            self.wf(),
        ensures
            r == self@.contains_key(k@),
    {
        match self.index_of(k) {
            Some(i) => {
                proof {
                    lemma_map_of_index(self.pairs@, i as int);
                }
                true
            },
            None => false,
        }
    }

    pub fn get(&self, k: &String) -> (r: Option<&V>)
        requires
            self.wf(),
        ensures
            match r {
                Some(v) => self@.contains_key(k@) && *v == self@[k@],
                None => !self@.contains_key(k@),
            },
    {
        match self.index_of(k) {
            Some(i) => {
                proof {
                    lemma_map_of_index(self.pairs@, i as int);
                }
                Some(&self.pairs[i].1)
            },
            None => None,
        }
    }

    /// Records `v` under `k`, replacing any previous value for that key.
    pub fn insert(&mut self, k: String, v: V)
        requires
            old(self).wf(),
        ensures
            final(self).wf(),
            final(self)@ == old(self)@.insert(k@, v),
    {
        let ghost olds = self.pairs@;
        match self.index_of(&k) {
            Some(i) => {
                let ghost kv = k@;
                self.pairs.remove(i);
                let ghost mids = self.pairs@;
                proof {
                    lemma_map_of_remove(olds, i as int);
                    assert(mids == olds.remove(i as int));
                    assert(!keys_of(mids).contains(kv)) by {
                        if keys_of(mids).contains(kv) {
                            let j = choose|j: int|
                                0 <= j < mids.len() && keys_of(mids)[j] == kv;
                            let j0 = if j < i { j } else { j + 1 };
                            assert(keys_of(olds)[j0] == kv);
                            assert(keys_of(olds)[i as int] == kv);
                        }
                    }
                }
                self.pairs.push((k, v));
                proof {
                    lemma_map_of_push(mids, k, v);
                    assert(self@ =~= old(self)@.insert(kv, v));
                }
            },
            None => {
                self.pairs.push((k, v));
                proof {
                    lemma_map_of_push(olds, k, v);
                }
            },
        }
    }

    /// Removes and returns the value under `k`; absent keys are a no-op.
    pub fn take(&mut self, k: &String) -> (r: Option<V>)
        requires
            old(self).wf(),
        ensures
            final(self).wf(),
            match r {
                Some(v) => old(self)@.contains_key(k@) && v == old(self)@[k@] && final(self)@
                    == old(self)@.remove(k@),
                None => !old(self)@.contains_key(k@) && *final(self) == *old(self),
            },
    {
        let ghost olds = self.pairs@;
        match self.index_of(k) {
            Some(i) => {
                proof {
                    lemma_map_of_index(olds, i as int);
                    lemma_map_of_remove(olds, i as int);
                }
                let pair = self.pairs.remove(i);
                Some(pair.1)
            },
            None => None,
        }
    }
}

} // verus!

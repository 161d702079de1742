//! A finite map kept as a list of entries with distinct keys.

use vstd::prelude::*;

verus! {

/// A key of a table: a plain value on which the executable test `same` decides
/// equality.
pub trait Key: Copy {
    /// Whether the two keys are the same.
    fn same(&self, other: &Self) -> (b: bool)
        ensures
            b == (*self == *other),
    ;
}

impl Key for u32 {
    fn same(&self, other: &Self) -> (b: bool) {
        *self == *other
    }
}

impl Key for u64 {
    fn same(&self, other: &Self) -> (b: bool) {
        *self == *other
    }
}

/// A finite map from `K` to `V`. Its view is the map from each key to the view
/// of its value.
pub struct Table<K, V> {
    entries: Vec<(K, V)>,
}

impl<K: Key, V: View> View for Table<K, V> {
    type V = Map<K, V::V>;

    closed spec fn view(&self) -> Map<K, V::V> {
        Map::new(
            |k: K| exists|i: int| self.holds(k, i),
            |k: K| self.entries@[choose|i: int| self.holds(k, i)].1@,
        )
    }
}

impl<K: Key, V: View> Table<K, V> {
    /// Entry `i` exists and has key `k`.
    closed spec fn holds(&self, k: K, i: int) -> bool {
        0 <= i < self.entries@.len() && self.entries@[i].0 == k
    }

    /// No key occurs twice.
    pub closed spec fn wf(&self) -> bool {
        forall|i: int, j: int|
            0 <= i < j < self.entries@.len() ==> #[trigger] self.entries@[i].0
                != #[trigger] self.entries@[j].0
    }

    /// The keys in the order in which the table walks them.
    pub closed spec fn keys(&self) -> Seq<K> {
        Seq::new(self.entries@.len(), |i: int| self.entries@[i].0)
    }

    /// The walk meets each key of the map once, and nothing else.
    pub proof fn lemma_keys(&self)
        requires
            self.wf(),
        ensures
            self.keys().no_duplicates(),
            forall|k: K| self@.contains_key(k) <==> self.keys().contains(k),
    {
        assert forall|k: K| self@.contains_key(k) <==> self.keys().contains(k) by {
            if self@.contains_key(k) {
                let i = choose|i: int| self.holds(k, i);
                assert(self.keys()[i] == k);
            }
            if self.keys().contains(k) {
                let i = choose|i: int| 0 <= i < self.keys().len() && self.keys()[i] == k;
                assert(self.holds(k, i));
            }
        }
    }

    proof fn lemma_entry(&self, i: int)
        requires
            self.wf(),
            0 <= i < self.entries@.len(),
        ensures
            self@.contains_key(self.entries@[i].0),
            self@[self.entries@[i].0] == self.entries@[i].1@,
    {
        let k = self.entries@[i].0;
        assert(self.holds(k, i));
        let j = choose|j: int| self.holds(k, j);
        assert(i == j) by {
            if i < j {
                assert(self.entries@[i].0 != self.entries@[j].0);
            }
            if j < i {
                assert(self.entries@[j].0 != self.entries@[i].0);
            }
        }
    }

    /// The empty table.
    pub fn new() -> (t: Self)
        ensures
            t.wf(),
            t@ == Map::<K, V::V>::empty(),
    {
        let t = Table { entries: Vec::new() };
        assert(t@ =~= Map::<K, V::V>::empty());
        t
    }

    fn position(&self, k: &K) -> (r: Option<usize>)
        requires
            self.wf(),
        ensures
            match r {
                Some(i) => self.holds(*k, i as int),
                None => forall|i: int| !self.holds(*k, i),
            },
    {
        let mut i: usize = 0;
        while i < self.entries.len()
            invariant
                0 <= i <= self.entries@.len(),
                forall|j: int| 0 <= j < i ==> self.entries@[j].0 != *k,
            decreases self.entries@.len() - i,
        {
            if self.entries[i].0.same(k) {
                return Some(i);
            }
            i += 1;
        }
        None
    }

    /// Whether the table has an entry for `k`.
    pub fn contains_key(&self, k: &K) -> (b: bool)
        requires
            self.wf(),
        ensures
            b == self@.contains_key(*k),
    {
        match self.position(k) {
            Some(i) => {
                proof {
                    self.lemma_entry(i as int);
                }
                true
            },
            None => false,
        }
    }

    /// The value stored for `k`, if any.
    pub fn get(&self, k: &K) -> (r: Option<&V>)
        requires
            self.wf(),
        ensures
            match r {
                Some(v) => self@.contains_key(*k) && v@ == self@[*k],
                None => !self@.contains_key(*k),
            },
    {
        match self.position(k) {
            Some(i) => {
                proof {
                    self.lemma_entry(i as int);
                }
                Some(&self.entries[i].1)
            },
            None => None,
        }
    }

    /// Stores `v` for `k`, in place of what was stored for it before.
    pub fn insert(&mut self, k: K, v: V)
        requires
            old(self).wf(),
        ensures
            final(self).wf(),
            final(self)@ == old(self)@.insert(k, v@),
    {
        let ghost before = *self;
        let ghost vv = v@;
        match self.position(&k) {
            Some(i) => {
                self.entries.set(i, (k, v));
                proof {
                    assert forall|q: K| self@.contains_key(q) <==> before@.insert(
                        k,
                        vv,
                    ).contains_key(q) by {
                        if self@.contains_key(q) {
                            let j = choose|j: int| self.holds(q, j);
                            if j != i as int {
                                assert(before.holds(q, j));
                            }
                        }
                        if before@.contains_key(q) {
                            let j = choose|j: int| before.holds(q, j);
                            if j != i as int {
                                assert(self.holds(q, j));
                            } else {
                                assert(self.holds(q, i as int));
                            }
                        }
                        if q == k {
                            assert(self.holds(q, i as int));
                        }
                    }
                    assert(self@.dom() =~= before@.insert(k, vv).dom());
                    assert forall|q: K| self@.contains_key(q) implies self@[q] == before@.insert(
                        k,
                        vv,
                    )[q] by {
                        let j = choose|j: int| self.holds(q, j);
                        self.lemma_entry(j);
                        if j != i as int {
                            before.lemma_entry(j);
                        }
                    }
                    assert(self@ =~= before@.insert(k, vv));
                }
            },
            None => {
                self.entries.push((k, v));
                proof {
                    let n = before.entries@.len() as int;
                    assert forall|q: K| self@.contains_key(q) <==> before@.insert(
                        k,
                        vv,
                    ).contains_key(q) by {
                        if self@.contains_key(q) {
                            let j = choose|j: int| self.holds(q, j);
                            if j != n {
                                assert(before.holds(q, j));
                            }
                        }
                        if before@.contains_key(q) {
                            let j = choose|j: int| before.holds(q, j);
                            assert(self.holds(q, j));
                        }
                        if q == k {
                            assert(self.holds(q, n));
                        }
                    }
                    assert(self@.dom() =~= before@.insert(k, vv).dom());
                    assert forall|i: int, j: int| 0 <= i < j < self.entries@.len() implies (
                    #[trigger] self.entries@[i].0) != (#[trigger] self.entries@[j].0) by {
                        if j == n {
                            assert(!before.holds(k, i));
                        }
                    }
                    assert forall|q: K| self@.contains_key(q) implies self@[q] == before@.insert(
                        k,
                        vv,
                    )[q] by {
                        let j = choose|j: int| self.holds(q, j);
                        self.lemma_entry(j);
                        if j != n {
                            before.lemma_entry(j);
                        }
                    }
                    assert(self@ =~= before@.insert(k, vv));
                }
            },
        }
    }

    /// Drops the entry for `k`, if there is one.
    pub fn remove(&mut self, k: &K)
        requires
            old(self).wf(),
        ensures
            final(self).wf(),
            final(self)@ == old(self)@.remove(*k),
    {
        let ghost before = *self;
        match self.position(k) {
            Some(i) => {
                let _ = self.entries.remove(i);
                proof {
                    let n = i as int;
                    assert forall|a: int, b: int| 0 <= a < b < self.entries@.len() implies (
                    #[trigger] self.entries@[a].0) != (#[trigger] self.entries@[b].0) by {
                        let a0 = if a < n { a } else { a + 1 };
                        let b0 = if b < n { b } else { b + 1 };
                        assert(before.entries@[a0].0 != before.entries@[b0].0);
                    }
                    assert forall|q: K| self@.contains_key(q) <==> before@.remove(*k).contains_key(
                        q,
                    ) by {
                        if self@.contains_key(q) {
                            let j = choose|j: int| self.holds(q, j);
                            let j0 = if j < n { j } else { j + 1 };
                            assert(before.holds(q, j0));
                            assert(before.entries@[j0].0 != before.entries@[n].0);
                        }
                        if before@.contains_key(q) && q != *k {
                            let j = choose|j: int| before.holds(q, j);
                            let j1 = if j < n { j } else { j - 1 };
                            assert(self.holds(q, j1));
                        }
                    }
                    assert(self@.dom() =~= before@.remove(*k).dom());
                    assert forall|q: K| self@.contains_key(q) implies self@[q] == before@.remove(
                        *k,
                    )[q] by {
                        let j = choose|j: int| self.holds(q, j);
                        let j0 = if j < n { j } else { j + 1 };
                        self.lemma_entry(j);
                        before.lemma_entry(j0);
                    }
                    assert(self@ =~= before@.remove(*k));
                }
            },
            None => {
                assert(self@ =~= before@.remove(*k));
            },
        }
    }

    /// The number of entries.
    pub fn len(&self) -> (n: usize)
        ensures
            n == self.keys().len(),
    {
        self.entries.len()
    }

    /// The key of entry `i` in the order of the walk.
    pub fn key_at(&self, i: usize) -> (k: K)
        requires
            i < self.keys().len(),
        ensures
            k == self.keys()[i as int],
    {
        self.entries[i].0
    }
}

} // verus!

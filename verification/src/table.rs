//! A small String-keyed table with unique keys, backed by a vector of pairs
//! kept in insertion order. It is the storage shape behind the price table,
//! the two balance tables, the bet table and the word counts.
//!
//! Specifications speak of two views of a table: `entries()`, the sequence of
//! (key view, value view) pairs in insertion order, and `as_map()`, the
//! finite map the entries denote. Keys are unique (`wf()`), so the two agree.

use vstd::prelude::*;

verus! {

pub struct Table<V> {
    pairs: Vec<(String, V)>,
}

impl<V: View> Table<V> {
    /// The entries in insertion order, each as (key view, value view).
    pub closed spec fn entries(self) -> Seq<(Seq<char>, V::V)> {
        self.pairs@.map(|i: int, p: (String, V)| (p.0@, p.1@))
    }

    /// Keys are unique.
    pub open spec fn wf(self) -> bool {
        forall|i: int, j: int|
            0 <= i < j < self.entries().len() ==> (#[trigger] self.entries()[i]).0 != (
            #[trigger] self.entries()[j]).0
    }

    pub open spec fn has_key(self, k: Seq<char>) -> bool {
        exists|i: int| 0 <= i < self.entries().len() && (#[trigger] self.entries()[i]).0 == k
    }

    /// The index holding key `k`, when `has_key(k)`.
    pub closed spec fn index_of(self, k: Seq<char>) -> int {
        choose|i: int| 0 <= i < self.entries().len() && (#[trigger] self.entries()[i]).0 == k
    }

    /// The finite map the entries denote.
    pub open spec fn as_map(self) -> Map<Seq<char>, V::V> {
        Map::new(|k: Seq<char>| self.has_key(k), |k: Seq<char>| self.entries()[self.index_of(k)].1)
    }

    /// In a well-formed table, the index holding a key is unique.
    proof fn lemma_key_at(self, k: Seq<char>, i: int)
        requires
            self.wf(),
            0 <= i < self.entries().len(),
            self.entries()[i].0 == k,
        ensures
            self.has_key(k),
            self.index_of(k) == i,
            self.as_map().contains_key(k),
            self.as_map()[k] == self.entries()[i].1,
    {
        assert(self.has_key(k));
        let j = self.index_of(k);
        assert(0 <= j < self.entries().len() && self.entries()[j].0 == k);
        if i < j {
            assert(self.entries()[i].0 != self.entries()[j].0);
        }
        if j < i {
            assert(self.entries()[j].0 != self.entries()[i].0);
        }
    }

    pub fn new() -> (t: Self)
        ensures
            t.wf(),
            t.entries() == Seq::<(Seq<char>, V::V)>::empty(),
            t.as_map() == Map::<Seq<char>, V::V>::empty(),
    {
        let t = Table { pairs: Vec::new() };
        proof {
            assert(t.entries() =~= Seq::<(Seq<char>, V::V)>::empty());
            assert(t.as_map() =~= Map::<Seq<char>, V::V>::empty());
        }
        t
    }

    pub fn len(&self) -> (n: usize)
        ensures
            n == self.entries().len(),
    {
        self.pairs.len()
    }

    /// Look the key up; `None` exactly when the table has no such key.
    pub fn get(&self, k: &String) -> (r: Option<&V>)
        requires
            self.wf(),
        ensures
            self.has_key(k@) ==> r is Some,
            r matches Some(v) ==> self.as_map().contains_key(k@) && v@ == self.as_map()[k@],
            r is None ==> !self.has_key(k@) && !self.as_map().contains_key(k@),
    {
        let n = self.pairs.len();
        let mut i: usize = 0;
        while i < n
            invariant
                self.wf(),
                n == self.pairs@.len(),
                0 <= i <= n,
                forall|j: int| 0 <= j < i ==> (#[trigger] self.entries()[j]).0 != k@,
            decreases n - i,
        {
            let p = &self.pairs[i];
            if p.0 == *k {
                proof {
                    assert(self.entries()[i as int].0 == k@);
                    self.lemma_key_at(k@, i as int);
                }
                return Some(&p.1);
            }
            i = i + 1;
        }
        proof {
            if self.has_key(k@) {
                let j = choose|j: int|
                    0 <= j < self.entries().len() && (#[trigger] self.entries()[j]).0 == k@;
                assert(self.entries()[j].0 != k@);
            }
        }
        None
    }

    /// Bind the key to the value, overwriting in place or appending.
    pub fn set(&mut self, k: &String, v: V)
        requires
            old(self).wf(),
        ensures
            final(self).wf(),
            final(self).as_map() == old(self).as_map().insert(k@, v@),
            final(self).has_key(k@),
            old(self).has_key(k@) ==> 0 <= old(self).index_of(k@) < old(self).entries().len(),
            old(self).has_key(k@) ==> old(self).entries()[old(self).index_of(k@)] == (
            k@,
            old(self).as_map()[k@],
            ),
            old(self).has_key(k@) ==> final(self).entries() == old(self).entries().update(
                old(self).index_of(k@),
                (k@, v@),
            ),
            !old(self).has_key(k@) ==> final(self).entries() == old(self).entries().push((k@, v@)),
    {
        let ghost pre = *self;
        let n = self.pairs.len();
        let mut i: usize = 0;
        while i < n
            invariant
                pre == *old(self),
                *self == pre,
                self.wf(),
                n == self.pairs@.len(),
                0 <= i <= n,
                forall|j: int| 0 <= j < i ==> (#[trigger] self.entries()[j]).0 != k@,
            decreases n - i,
        {
            let found: bool = self.pairs[i].0 == *k;
            if found {
                proof {
                    assert(pre.entries()[i as int].0 == k@);
                    pre.lemma_key_at(k@, i as int);
                }
                self.pairs[i] = (k.clone(), v);
                proof {
                    assert(self.entries() =~= pre.entries().update(i as int, (k@, v@)));
                    self.lemma_set_update(pre, k@, v@, i as int);
                }
                return ;
            }
            i = i + 1;
        }
        proof {
            if pre.has_key(k@) {
                let j = choose|j: int|
                    0 <= j < pre.entries().len() && (#[trigger] pre.entries()[j]).0 == k@;
                assert(pre.entries()[j].0 != k@);
            }
        }
        self.pairs.push((k.clone(), v));
        proof {
            assert(self.entries() =~= pre.entries().push((k@, v@)));
            self.lemma_set_push(pre, k@, v@);
        }
    }

    /// After an in-place overwrite at the key's index, the table denotes the
    /// old map with the key re-bound.
    proof fn lemma_set_update(self, pre: Self, k: Seq<char>, v: V::V, i: int)
        requires
            pre.wf(),
            0 <= i < pre.entries().len(),
            pre.entries()[i].0 == k,
            self.entries() == pre.entries().update(i, (k, v)),
        ensures
            self.wf(),
            self.as_map() == pre.as_map().insert(k, v),
            self.has_key(k),
    {
        assert forall|a: int, b: int| 0 <= a < b < self.entries().len() implies (
        #[trigger] self.entries()[a]).0 != (#[trigger] self.entries()[b]).0 by {
            assert(pre.entries()[a].0 != pre.entries()[b].0);
        }
        self.lemma_key_at(k, i);
        assert forall|q: Seq<char>| true implies #[trigger] self.has_key(q) == pre.has_key(q) by {
            if self.has_key(q) {
                let a = choose|a: int|
                    0 <= a < self.entries().len() && (#[trigger] self.entries()[a]).0 == q;
                assert(pre.entries()[a].0 == q);
            }
            if pre.has_key(q) {
                let a = choose|a: int|
                    0 <= a < pre.entries().len() && (#[trigger] pre.entries()[a]).0 == q;
                assert(self.entries()[a].0 == q);
            }
        }
        assert forall|q: Seq<char>| self.as_map().contains_key(q) implies self.as_map()[q]
            == pre.as_map().insert(k, v)[q] by {
            if q == k {
                assert(self.as_map()[q] == v);
            } else {
                let a = choose|a: int|
                    0 <= a < pre.entries().len() && (#[trigger] pre.entries()[a]).0 == q;
                assert(a != i);
                assert(self.entries()[a].0 == q);
                self.lemma_key_at(q, a);
                pre.lemma_key_at(q, a);
            }
        }
        assert(self.as_map() =~= pre.as_map().insert(k, v));
    }

    /// After appending a fresh key, the table denotes the old map with the
    /// key bound.
    proof fn lemma_set_push(self, pre: Self, k: Seq<char>, v: V::V)
        requires
            pre.wf(),
            !pre.has_key(k),
            self.entries() == pre.entries().push((k, v)),
        ensures
            self.wf(),
            self.as_map() == pre.as_map().insert(k, v),
            self.has_key(k),
    {
        let n = pre.entries().len() as int;
        assert forall|a: int| 0 <= a < n implies (#[trigger] pre.entries()[a]).0 != k by {
            if pre.entries()[a].0 == k {
                assert(pre.has_key(k));
            }
        }
        assert forall|a: int, b: int| 0 <= a < b < self.entries().len() implies (
        #[trigger] self.entries()[a]).0 != (#[trigger] self.entries()[b]).0 by {
            if b < n {
                assert(pre.entries()[a].0 != pre.entries()[b].0);
            } else {
                assert(self.entries()[b].0 == k);
                assert(pre.entries()[a].0 != k);
            }
        }
        assert(self.entries()[n].0 == k);
        self.lemma_key_at(k, n);
        assert forall|q: Seq<char>| self.as_map().contains_key(q) implies pre.as_map().insert(
            k,
            v,
        ).contains_key(q) && self.as_map()[q] == pre.as_map().insert(k, v)[q] by {
            if q != k {
                let a = choose|a: int|
                    0 <= a < self.entries().len() && (#[trigger] self.entries()[a]).0 == q;
                assert(a != n);
                assert(pre.entries()[a].0 == q);
                self.lemma_key_at(q, a);
                pre.lemma_key_at(q, a);
            }
        }
        assert forall|q: Seq<char>| pre.as_map().insert(k, v).contains_key(q) implies
            self.as_map().contains_key(q) by {
            if q != k {
                let a = choose|a: int|
                    0 <= a < pre.entries().len() && (#[trigger] pre.entries()[a]).0 == q;
                assert(self.entries()[a].0 == q);
            }
        }
        assert(self.as_map() =~= pre.as_map().insert(k, v));
    }

    /// Drop the key's entry if there is one; later entries move up one place.
    pub fn remove(&mut self, k: &String)
        requires
            old(self).wf(),
        ensures
            final(self).wf(),
            final(self).as_map() == old(self).as_map().remove(k@),
            !final(self).has_key(k@),
            !old(self).has_key(k@) ==> *final(self) == *old(self),
            old(self).has_key(k@) ==> final(self).entries() == old(self).entries().remove(
                old(self).index_of(k@),
            ),
    {
        let ghost pre = *self;
        let n = self.pairs.len();
        let mut i: usize = 0;
        while i < n
            invariant
                pre == *old(self),
                *self == pre,
                self.wf(),
                n == self.pairs@.len(),
                0 <= i <= n,
                forall|j: int| 0 <= j < i ==> (#[trigger] self.entries()[j]).0 != k@,
            decreases n - i,
        {
            let found: bool = self.pairs[i].0 == *k;
            if found {
                proof {
                    assert(pre.entries()[i as int].0 == k@);
                    pre.lemma_key_at(k@, i as int);
                }
                let _ = self.pairs.remove(i);
                proof {
                    assert(self.entries() =~= pre.entries().remove(i as int));
                    self.lemma_removed(pre, k@, i as int);
                }
                return ;
            }
            i = i + 1;
        }
        proof {
            if pre.has_key(k@) {
                let j = choose|j: int|
                    0 <= j < pre.entries().len() && (#[trigger] pre.entries()[j]).0 == k@;
                assert(pre.entries()[j].0 != k@);
            }
            assert(self.as_map() =~= pre.as_map().remove(k@));
        }
    }

    /// After dropping the entry at the key's index, the table denotes the old
    /// map without the key.
    proof fn lemma_removed(self, pre: Self, k: Seq<char>, i: int)
        requires
            pre.wf(),
            0 <= i < pre.entries().len(),
            pre.entries()[i].0 == k,
            self.entries() == pre.entries().remove(i),
        ensures
            self.wf(),
            self.as_map() == pre.as_map().remove(k),
            !self.has_key(k),
    {
        let n = pre.entries().len() as int;
        // Each index of the shorter sequence maps to an index of the old one.
        assert forall|a: int| 0 <= a < n - 1 implies #[trigger] self.entries()[a] == (if a < i {
            pre.entries()[a]
        } else {
            pre.entries()[a + 1]
        }) by {}
        assert forall|a: int, b: int| 0 <= a < b < self.entries().len() implies (
        #[trigger] self.entries()[a]).0 != (#[trigger] self.entries()[b]).0 by {
            let a0 = if a < i {
                a
            } else {
                a + 1
            };
            let b0 = if b < i {
                b
            } else {
                b + 1
            };
            assert(pre.entries()[a0].0 != pre.entries()[b0].0);
        }
        assert forall|a: int| 0 <= a < n - 1 implies (#[trigger] self.entries()[a]).0 != k by {
            let a0 = if a < i {
                a
            } else {
                a + 1
            };
            if pre.entries()[a0].0 == k {
                pre.lemma_key_at(k, a0);
                pre.lemma_key_at(k, i);
            }
        }
        if self.has_key(k) {
            let a = choose|a: int|
                0 <= a < self.entries().len() && (#[trigger] self.entries()[a]).0 == k;
            assert(self.entries()[a].0 != k);
        }
        assert forall|q: Seq<char>| self.as_map().contains_key(q) implies pre.as_map().remove(
            k,
        ).contains_key(q) && self.as_map()[q] == pre.as_map().remove(k)[q] by {
            let a = choose|a: int|
                0 <= a < self.entries().len() && (#[trigger] self.entries()[a]).0 == q;
            let a0 = if a < i {
                a
            } else {
                a + 1
            };
            assert(pre.entries()[a0].0 == q);
            self.lemma_key_at(q, a);
            pre.lemma_key_at(q, a0);
        }
        assert forall|q: Seq<char>| pre.as_map().remove(k).contains_key(q) implies
            self.as_map().contains_key(q) by {
            let a0 = choose|a0: int|
                0 <= a0 < pre.entries().len() && (#[trigger] pre.entries()[a0]).0 == q;
            pre.lemma_key_at(q, a0);
            pre.lemma_key_at(k, i);
            assert(a0 != i);
            let a = if a0 < i {
                a0
            } else {
                a0 - 1
            };
            assert(self.entries()[a].0 == q);
        }
        assert(self.as_map() =~= pre.as_map().remove(k));
    }
}

impl<V: View + Copy> Table<V> {
    /// The entries, in order, as an ordinary vector of pairs.
    pub fn copy_pairs(&self) -> (r: Vec<(String, V)>)
        ensures
            r@.len() == self.entries().len(),
            forall|i: int|
                0 <= i < r@.len() ==> ((#[trigger] r@[i]).0@, r@[i].1@) == self.entries()[i],
    {
        let n = self.pairs.len();
        let mut out: Vec<(String, V)> = Vec::new();
        let mut i: usize = 0;
        while i < n
            invariant
                n == self.pairs@.len(),
                0 <= i <= n,
                out@.len() == i,
                forall|j: int|
                    0 <= j < i ==> ((#[trigger] out@[j]).0@, out@[j].1@) == self.entries()[j],
            decreases n - i,
        {
            let p = &self.pairs[i];
            out.push((p.0.clone(), p.1));
            i = i + 1;
        }
        out
    }
}

} // verus!

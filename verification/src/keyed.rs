//! A small map keyed by text, kept as a list of entries whose keys are
//! distinct. Its view is the map from each key's characters to its value.

use vstd::prelude::*;
use crate::text::same_text;

verus! {

/// A map from text keys to values.
pub struct Keyed<V> {
    entries: Vec<(String, V)>,
}

impl<V> Keyed<V> {
    /// No key occurs twice.
    #[verifier::type_invariant]
    spec fn distinct_keys(&self) -> bool {
        forall|i: int, j: int|
            0 <= i < self.entries@.len() && 0 <= j < self.entries@.len() && i != j
                ==> #[trigger] self.entries@[i].0@ != #[trigger] self.entries@[j].0@
    }

    spec fn has_at(&self, k: Seq<char>, i: int) -> bool {
        0 <= i < self.entries@.len() && self.entries@[i].0@ == k
    }

    spec fn index_of(&self, k: Seq<char>) -> int {
        choose|i: int| self.has_at(k, i)
    }

    /// The map from each key to its value.
    pub closed spec fn view(&self) -> Map<Seq<char>, V> {
        Map::new(
            |k: Seq<char>| exists|i: int| self.has_at(k, i),
            |k: Seq<char>| self.entries@[self.index_of(k)].1,
        )
    }

    proof fn lemma_value_at(&self, i: int)
        requires
            self.distinct_keys(),
            0 <= i < self.entries@.len(),
        ensures
            self.view().dom().contains(self.entries@[i].0@),
            self.view()[self.entries@[i].0@] == self.entries@[i].1,
    {
        let k = self.entries@[i].0@;
        assert(self.has_at(k, i));
        let c = self.index_of(k);
        assert(self.has_at(k, c));
        if c != i {
            assert(self.entries@[c].0@ != self.entries@[i].0@);
        }
    }

    /// The empty map.
    pub fn new() -> (m: Keyed<V>)
        ensures
            m.view() == Map::<Seq<char>, V>::empty(),
    {
        let m = Keyed { entries: Vec::new() };
        assert(m.view() =~= Map::<Seq<char>, V>::empty());
        m
    }

    fn position(&self, key: &str) -> (r: Option<usize>)
        ensures
            match r {
                Some(i) => self.has_at(key@, i as int),
                None => forall|i: int| !self.has_at(key@, i),
            },
    {
        let mut i: usize = 0;
        while i < self.entries.len()
            invariant
                i <= self.entries@.len(),
                forall|j: int| 0 <= j < i ==> !self.has_at(key@, j),
            decreases self.entries.len() - i,
        {
            if same_text(self.entries[i].0.as_str(), key) {
                return Some(i);
            }
            i += 1;
        }
        None
    }

    /// The value under `key`, if there is one.
    pub fn get(&self, key: &str) -> (r: Option<&V>)
        ensures
            match r {
                Some(v) => self.view().dom().contains(key@) && *v == self.view()[key@],
                None => !self.view().dom().contains(key@),
            },
    {
        proof {
            use_type_invariant(self);
        }
        match self.position(key) {
            Some(i) => {
                proof {
                    self.lemma_value_at(i as int);
                }
                Some(&self.entries[i].1)
            },
            None => None,
        }
    }

    /// Whether there is a value under `key`.
    pub fn contains_key(&self, key: &str) -> (r: bool)
        ensures
            r == self.view().dom().contains(key@),
    {
        match self.get(key) {
            Some(_) => true,
            None => false,
        }
    }

    /// Puts `value` under `key`, in place of any value there was.
    pub fn insert(&mut self, key: String, value: V)
        ensures
            final(self).view() == old(self).view().insert(key@, value),
    {
        proof {
            use_type_invariant(&*self);
        }
        let ghost old_self = *self;
        match self.position(key.as_str()) {
            Some(i) => {
                let ghost k = key@;
                let mut entries: Vec<(String, V)> = Vec::new();
                std::mem::swap(&mut entries, &mut self.entries);
                entries.set(i, (key, value));
                proof {
                    assert forall|a: int, b: int|
                        0 <= a < entries@.len() && 0 <= b < entries@.len() && a != b
                        implies #[trigger] entries@[a].0@ != #[trigger] entries@[b].0@ by {
                        assert(old_self.entries@[a].0@ != old_self.entries@[b].0@);
                    }
                }
                self.entries = entries;
                proof {
                    assert forall|q: Seq<char>| #[trigger] self.view().dom().contains(q)
                        == old_self.view().insert(k, value).dom().contains(q) by {
                        if q != k {
                            if exists|j: int| old_self.has_at(q, j) {
                                let j = choose|j: int| old_self.has_at(q, j);
                                assert(self.has_at(q, j));
                            }
                            if exists|j: int| self.has_at(q, j) {
                                let j = choose|j: int| self.has_at(q, j);
                                assert(old_self.has_at(q, j));
                            }
                        } else {
                            assert(self.has_at(q, i as int));
                        }
                    }
                    assert forall|q: Seq<char>| #[trigger] self.view().dom().contains(q)
                        implies self.view()[q] == old_self.view().insert(k, value)[q] by {
                        let j = choose|j: int| self.has_at(q, j);
                        self.lemma_value_at(j);
                        if q != k {
                            assert(old_self.has_at(q, j));
                            old_self.lemma_value_at(j);
                        } else if j != i {
                            assert(self.entries@[j].0@ != self.entries@[i as int].0@);
                        }
                    }
                    assert(self.view() =~= old_self.view().insert(k, value));
                }
            },
            None => {
                let ghost k = key@;
                let mut entries: Vec<(String, V)> = Vec::new();
                std::mem::swap(&mut entries, &mut self.entries);
                entries.push((key, value));
                let ghost n = old_self.entries@.len() as int;
                proof {
                    assert forall|a: int, b: int|
                        0 <= a < entries@.len() && 0 <= b < entries@.len() && a != b
                        implies #[trigger] entries@[a].0@ != #[trigger] entries@[b].0@ by {
                        if a < n && b < n {
                            assert(old_self.entries@[a].0@ != old_self.entries@[b].0@);
                        } else if a == n {
                            assert(!old_self.has_at(k, b));
                        } else {
                            assert(!old_self.has_at(k, a));
                        }
                    }
                }
                self.entries = entries;
                proof {
                    assert forall|q: Seq<char>| #[trigger] self.view().dom().contains(q)
                        == old_self.view().insert(k, value).dom().contains(q) by {
                        if q != k {
                            if exists|j: int| old_self.has_at(q, j) {
                                let j = choose|j: int| old_self.has_at(q, j);
                                assert(self.has_at(q, j));
                            }
                            if exists|j: int| self.has_at(q, j) {
                                let j = choose|j: int| self.has_at(q, j);
                                assert(old_self.has_at(q, j));
                            }
                        } else {
                            assert(self.has_at(q, n));
                        }
                    }
                    assert forall|q: Seq<char>| #[trigger] self.view().dom().contains(q)
                        implies self.view()[q] == old_self.view().insert(k, value)[q] by {
                        let j = choose|j: int| self.has_at(q, j);
                        self.lemma_value_at(j);
                        if q != k {
                            assert(old_self.has_at(q, j));
                            old_self.lemma_value_at(j);
                        }
                    }
                    assert(self.view() =~= old_self.view().insert(k, value));
                }
            },
        }
    }

    /// Takes out the value under `key`, if there is one.
    pub fn remove(&mut self, key: &str) -> (r: Option<V>)
        ensures
            match r {
                Some(v) => old(self).view().dom().contains(key@) && v == old(self).view()[key@],
                None => !old(self).view().dom().contains(key@),
            },
            final(self).view() == old(self).view().remove(key@),
    {
        proof {
            use_type_invariant(&*self);
        }
        let ghost old_self = *self;
        match self.position(key) {
            Some(i) => {
                proof {
                    old_self.lemma_value_at(i as int);
                }
                let mut entries: Vec<(String, V)> = Vec::new();
                std::mem::swap(&mut entries, &mut self.entries);
                let (_, v) = entries.remove(i);
                proof {
                    assert forall|a: int, b: int|
                        0 <= a < entries@.len() && 0 <= b < entries@.len() && a != b
                        implies #[trigger] entries@[a].0@ != #[trigger] entries@[b].0@ by {
                        let oa = if a < i { a } else { a + 1 };
                        let ob = if b < i { b } else { b + 1 };
                        assert(entries@[a] == old_self.entries@[oa]);
                        assert(entries@[b] == old_self.entries@[ob]);
                        assert(old_self.entries@[oa].0@ != old_self.entries@[ob].0@);
                    }
                }
                self.entries = entries;
                proof {
                    let k = key@;
                    assert forall|q: Seq<char>| #[trigger] self.view().dom().contains(q)
                        == old_self.view().remove(k).dom().contains(q) by {
                        if exists|j: int| old_self.has_at(q, j) {
                            let j = choose|j: int| old_self.has_at(q, j);
                            if q != k {
                                assert(j != i);
                                let nj = if j < i { j } else { j - 1 };
                                assert(self.entries@[nj] == old_self.entries@[j]);
                                assert(self.has_at(q, nj));
                            }
                        }
                        if exists|j: int| self.has_at(q, j) {
                            let j = choose|j: int| self.has_at(q, j);
                            let oj = if j < i { j } else { j + 1 };
                            assert(self.entries@[j] == old_self.entries@[oj]);
                            assert(old_self.has_at(q, oj));
                            assert(oj != i);
                            assert(old_self.entries@[oj].0@ != old_self.entries@[i as int].0@);
                        }
                    }
                    assert forall|q: Seq<char>| #[trigger] self.view().dom().contains(q)
                        implies self.view()[q] == old_self.view().remove(k)[q] by {
                        let j = choose|j: int| self.has_at(q, j);
                        self.lemma_value_at(j);
                        let oj = if j < i { j } else { j + 1 };
                        assert(self.entries@[j] == old_self.entries@[oj]);
                        old_self.lemma_value_at(oj);
                    }
                    assert(self.view() =~= old_self.view().remove(k));
                }
                Some(v)
            },
            None => {
                proof {
                    assert(self.view() =~= old_self.view().remove(key@));
                }
                None
            },
        }
    }

    /// Whether the map holds nothing.
    pub fn is_empty(&self) -> (r: bool)
        ensures
            r == (self.view() == Map::<Seq<char>, V>::empty()),
    {
        if self.entries.len() == 0 {
            assert(self.view() =~= Map::<Seq<char>, V>::empty());
            true
        } else {
            proof {
                use_type_invariant(self);
                self.lemma_value_at(0);
                assert(!Map::<Seq<char>, V>::empty().dom().contains(self.entries@[0].0@));
            }
            false
        }
    }

    /// The keys of the map, each once, in the order the map holds them.
    pub fn keys(&self) -> (ks: Vec<String>)
        ensures
            forall|i: int| 0 <= i < ks@.len() ==> self.view().dom().contains(#[trigger] ks@[i]@),
            forall|k: Seq<char>| #[trigger] self.view().dom().contains(k)
                ==> exists|i: int| 0 <= i < ks@.len() && ks@[i]@ == k,
            forall|i: int, j: int| 0 <= i < ks@.len() && 0 <= j < ks@.len() && i != j
                ==> #[trigger] ks@[i]@ != #[trigger] ks@[j]@,
    {
        proof {
            use_type_invariant(self);
        }
        let mut ks: Vec<String> = Vec::new();
        for i in 0..self.entries.len()
            invariant
                self.distinct_keys(),
                ks@.len() == i,
                forall|j: int| 0 <= j < i ==> #[trigger] ks@[j]@ == self.entries@[j].0@,
        {
            ks.push(self.entries[i].0.clone());
        }
        proof {
            assert forall|i: int| 0 <= i < ks@.len() implies self.view().dom().contains(#[trigger] ks@[i]@) by {
                self.lemma_value_at(i);
            }
            assert forall|k: Seq<char>| #[trigger] self.view().dom().contains(k)
                implies exists|i: int| 0 <= i < ks@.len() && ks@[i]@ == k by {
                let j = choose|j: int| self.has_at(k, j);
                assert(ks@[j]@ == k);
            }
            assert forall|i: int, j: int| 0 <= i < ks@.len() && 0 <= j < ks@.len() && i != j
                implies #[trigger] ks@[i]@ != #[trigger] ks@[j]@ by {
                assert(self.entries@[i].0@ != self.entries@[j].0@);
            }
        }
        ks
    }
}

} // verus!

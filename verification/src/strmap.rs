use vstd::prelude::*;

use crate::text::str_eq;

verus! {

/// A map keyed by strings, kept as a list of entries with distinct keys.
/// Its model is a `Map` from the keys' characters to the values; the order
/// of the entries is the order in which keys were first inserted, except that
/// `insert` of a present key keeps that key's place.
#[derive(Clone, Debug)]
pub struct StrMap<V> {
    entries: Vec<(String, V)>,
}

impl<V> StrMap<V> {
    /// The keys, in entry order.
    pub closed spec fn keys_seq(&self) -> Seq<Seq<char>> {
        self.entries@.map_values(|e: (String, V)| e.0@)
    }

    /// The values, in entry order.
    pub closed spec fn values_seq(&self) -> Seq<V> {
        self.entries@.map_values(|e: (String, V)| e.1)
    }

    /// The keys as strings, in entry order.
    pub closed spec fn key_strings(&self) -> Seq<String> {
        self.entries@.map_values(|e: (String, V)| e.0)
    }

    /// No key occurs twice.
    pub closed spec fn wf(&self) -> bool {
        self.keys_seq().no_duplicates()
    }

    /// The entry index at which `k` is found.
    pub closed spec fn index_of(&self, k: Seq<char>) -> int {
        choose|i: int| 0 <= i < self.entries@.len() && self.entries@[i].0@ == k
    }

    /// The map that the entries stand for.
    pub closed spec fn as_map(&self) -> Map<Seq<char>, V> {
        Map::new(
            |k: Seq<char>| self.keys_seq().contains(k),
            |k: Seq<char>| self.entries@[self.index_of(k)].1,
        )
    }

    proof fn lemma_index_of(&self, i: int)
        requires
            self.wf(),
            0 <= i < self.entries@.len(),
        ensures
            self.index_of(self.entries@[i].0@) == i,
    {
        let k = self.entries@[i].0@;
        assert(self.keys_seq()[i] == k);
        let j = self.index_of(k);
        assert(0 <= j < self.entries@.len() && self.entries@[j].0@ == k);
        assert(self.keys_seq()[j] == k);
    }

    /// How the entry sequences relate to the map.
    pub proof fn lemma_view(&self)
        requires
            self.wf(),
        ensures
            self.keys_seq().len() == self.values_seq().len(),
            self.keys_seq().len() == self.key_strings().len(),
            forall|i: int|
                0 <= i < self.keys_seq().len() ==> #[trigger] self.key_strings()[i]@
                    == self.keys_seq()[i],
            forall|k: Seq<char>| #[trigger]
                self@.contains_key(k) <==> self.keys_seq().contains(k),
            forall|i: int|
                0 <= i < self.keys_seq().len() ==> #[trigger] self@[self.keys_seq()[i]]
                    == self.values_seq()[i],
            self@.dom().finite(),
            self@.dom().len() == self.keys_seq().len(),
            self.keys_seq().no_duplicates(),
    {
        assert forall|i: int| 0 <= i < self.keys_seq().len() implies #[trigger] self@[self.keys_seq()[i]]
            == self.values_seq()[i] by {
            self.lemma_index_of(i);
        }
        assert(self@.dom() =~= self.keys_seq().to_set());
        self.keys_seq().unique_seq_to_set();
    }

    /// An empty map.
    pub fn new() -> (m: Self)
        ensures
            m.wf(),
            m@ == Map::<Seq<char>, V>::empty(),
            m.keys_seq() == Seq::<Seq<char>>::empty(),
    {
        let m = StrMap { entries: Vec::new() };
        assert(m@ =~= Map::<Seq<char>, V>::empty());
        assert(m.keys_seq() =~= Seq::<Seq<char>>::empty());
        m
    }

    /// The number of keys.
    pub fn len(&self) -> (n: usize)
        requires
            self.wf(),
        ensures
            n == self.keys_seq().len(),
            n == self@.dom().len(),
    {
        proof {
            self.lemma_view();
        }
        self.entries.len()
    }

    /// Whether no key is present.
    pub fn is_empty(&self) -> (b: bool)
        requires
            self.wf(),
        ensures
            b == (self@.dom().len() == 0),
            b == (self@ == Map::<Seq<char>, V>::empty()),
    {
        proof {
            self.lemma_view();
            if self.entries@.len() == 0 {
                assert(self@ =~= Map::<Seq<char>, V>::empty());
            } else {
                assert(self@.contains_key(self.keys_seq()[0]));
            }
        }
        self.entries.len() == 0
    }

    /// The entry index of key `k`, if it is present.
    pub fn find(&self, k: &str) -> (r: Option<usize>)
        requires
            self.wf(),
        ensures
            r is None <==> !self@.contains_key(k@),
            r matches Some(i) ==> i < self.keys_seq().len() && self.keys_seq()[i as int] == k@,
    {
        proof {
            self.lemma_view();
        }
        let mut i: usize = 0;
        while i < self.entries.len()
            invariant
                self.wf(),
                0 <= i <= self.entries.len(),
                forall|j: int| 0 <= j < i ==> self.keys_seq()[j] != k@,
            decreases self.entries.len() - i,
        {
            if str_eq(self.entries[i].0.as_str(), k) {
                assert(self.keys_seq()[i as int] == k@);
                assert(self.keys_seq().contains(k@));
                return Some(i);
            }
            i = i + 1;
        }
        None
    }

    /// Whether key `k` is present.
    pub fn contains_key(&self, k: &str) -> (b: bool)
        requires
            self.wf(),
        ensures
            b == self@.contains_key(k@),
    {
        self.find(k).is_some()
    }

    /// The value stored under `k`, if any.
    pub fn get(&self, k: &str) -> (r: Option<&V>)
        requires
            self.wf(),
        ensures
            r == (if self@.contains_key(k@) {
                Some(&self@[k@])
            } else {
                None
            }),
    {
        proof {
            self.lemma_view();
        }
        match self.find(k) {
            Some(i) => {
                proof {
                    self.lemma_index_of(i as int);
                }
                Some(&self.entries[i].1)
            },
            None => None,
        }
    }

    /// The key at entry `i`.
    pub fn key_at(&self, i: usize) -> (k: &String)
        requires
            i < self.keys_seq().len(),
        ensures
            k@ == self.keys_seq()[i as int],
            *k == self.key_strings()[i as int],
    {
        &self.entries[i].0
    }

    /// The value at entry `i`.
    pub fn value_at(&self, i: usize) -> (v: &V)
        requires
            i < self.keys_seq().len(),
        ensures
            *v == self.values_seq()[i as int],
    {
        &self.entries[i].1
    }

    /// Stores `v` under `k`; a present key keeps its place, a new key goes last.
    pub fn insert(&mut self, k: String, v: V)
        requires
            old(self).wf(),
        ensures
            final(self).wf(),
            final(self)@ == old(self)@.insert(k@, v),
    {
        proof {
            self.lemma_view();
        }
        let ghost old_self = *self;
        match self.find(k.as_str()) {
            Some(i) => {
                let ghost kk = k@;
                self.entries.set(i, (k, v));
                proof {
                    assert(self.keys_seq() =~= old_self.keys_seq());
                    self.lemma_view();
                    assert forall|key: Seq<char>| #[trigger] self@.contains_key(key) implies self@[key]
                        == old_self@.insert(kk, v)[key] by {
                        let j = self.keys_seq().index_of(key);
                        assert(self.keys_seq()[j] == key);
                        if j == i {
                        } else {
                            assert(old_self.keys_seq()[j] == key);
                        }
                    }
                    assert(self@ =~= old_self@.insert(kk, v));
                }
            },
            None => {
                let ghost kk = k@;
                self.entries.push((k, v));
                proof {
                    assert(self.keys_seq() =~= old_self.keys_seq().push(kk));
                    assert(self.keys_seq().no_duplicates()) by {
                        assert forall|a: int, b: int|
                            0 <= a < b < self.keys_seq().len() implies self.keys_seq()[a]
                            != self.keys_seq()[b] by {
                            if b == old_self.keys_seq().len() {
                                assert(old_self.keys_seq().contains(old_self.keys_seq()[a]));
                            }
                        }
                    }
                    self.lemma_view();
                    assert forall|key: Seq<char>| #[trigger] self@.contains_key(key) implies self@[key]
                        == old_self@.insert(kk, v)[key] by {
                        let j = self.keys_seq().index_of(key);
                        assert(self.keys_seq()[j] == key);
                        if j < old_self.keys_seq().len() {
                            assert(old_self.keys_seq()[j] == key);
                        }
                    }
                    assert forall|key: Seq<char>| #[trigger] old_self@.insert(kk, v).contains_key(key)
                        implies self@.contains_key(key) by {
                        if key != kk {
                            let j = old_self.keys_seq().index_of(key);
                            assert(self.keys_seq()[j] == key);
                        } else {
                            assert(self.keys_seq()[old_self.keys_seq().len() as int] == key);
                        }
                    }
                    assert(self@ =~= old_self@.insert(kk, v));
                }
            },
        }
    }

    /// Removes key `k`, returning its value if it was present.
    pub fn remove(&mut self, k: &str) -> (r: Option<V>)
        requires
            old(self).wf(),
        ensures
            final(self).wf(),
            final(self)@ == old(self)@.remove(k@),
            r == (if old(self)@.contains_key(k@) {
                Some(old(self)@[k@])
            } else {
                None
            }),
    {
        proof {
            self.lemma_view();
        }
        let ghost old_self = *self;
        match self.find(k) {
            Some(i) => {
                let (_key, v) = self.entries.remove(i);
                proof {
                    let ok = old_self.keys_seq();
                    assert(self.keys_seq() =~= ok.remove(i as int));
                    assert(self.keys_seq().no_duplicates()) by {
                        assert forall|a: int, b: int|
                            0 <= a < b < self.keys_seq().len() implies self.keys_seq()[a]
                            != self.keys_seq()[b] by {
                            let oa = if a < i { a } else { a + 1 };
                            let ob = if b < i { b } else { b + 1 };
                            assert(self.keys_seq()[a] == ok[oa]);
                            assert(self.keys_seq()[b] == ok[ob]);
                        }
                    }
                    self.lemma_view();
                    old_self.lemma_index_of(i as int);
                    assert forall|key: Seq<char>| #[trigger] self@.contains_key(key) implies self@[key]
                        == old_self@.remove(k@)[key] && key != k@ by {
                        let j = self.keys_seq().index_of(key);
                        assert(self.keys_seq()[j] == key);
                        let oj = if j < i { j } else { j + 1 };
                        assert(ok[oj] == key);
                    }
                    assert forall|key: Seq<char>| #[trigger] old_self@.remove(k@).contains_key(key)
                        implies self@.contains_key(key) by {
                        let j = ok.index_of(key);
                        assert(ok[j] == key);
                        assert(j != i);
                        let nj = if j < i { j } else { j - 1 };
                        assert(self.keys_seq()[nj] == key);
                    }
                    assert(self@ =~= old_self@.remove(k@));
                }
                Some(v)
            },
            None => {
                proof {
                    assert(self@ =~= old_self@.remove(k@));
                }
                None
            },
        }
    }
}

impl<V> View for StrMap<V> {
    type V = Map<Seq<char>, V>;

    closed spec fn view(&self) -> Map<Seq<char>, V> {
        self.as_map()
    }
}

} // verus!

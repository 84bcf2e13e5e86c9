//! A map keyed by strings that keeps its entries in the order in which their
//! keys first came, backed by two parallel vectors.

use vstd::prelude::*;

verus! {

/// A map from strings to values in which no key occurs twice.
pub struct StringMap<V> {
    keys: Vec<String>,
    values: Vec<V>,
}

impl<V> View for StringMap<V> {
    type V = Map<Seq<char>, V>;

    closed spec fn view(&self) -> Map<Seq<char>, V> {
        Map::new(
            |k: Seq<char>| self.slot_of(k) is Some,
            |k: Seq<char>| self.values@[self.slot_of(k).unwrap()],
        )
    }
}

impl<V> StringMap<V> {
    /// The two vectors run in step and no key occurs twice.
    pub closed spec fn wf(&self) -> bool {
        &&& self.keys@.len() == self.values@.len()
        &&& forall|i: int, j: int|
            0 <= i < j < self.keys@.len() ==> self.keys@[i]@ != self.keys@[j]@
    }

    /// The place of a key among the entries, if it has one.
    spec fn slot_of(&self, k: Seq<char>) -> Option<int> {
        if exists|i: int| 0 <= i < self.keys@.len() && self.keys@[i]@ == k {
            Some(choose|i: int| 0 <= i < self.keys@.len() && self.keys@[i]@ == k)
        } else {
            None
        }
    }

    /// The keys in the order in which they first came.
    pub closed spec fn order(&self) -> Seq<Seq<char>> {
        Seq::new(self.keys@.len(), |i: int| self.keys@[i]@)
    }

    /// Whether a sequence of keys lists exactly the keys of a map, each once.
    pub open spec fn lists(order: Seq<Seq<char>>, map: Map<Seq<char>, V>) -> bool {
        &&& order.no_duplicates()
        &&& forall|k: Seq<char>| map.contains_key(k) <==> order.contains(k)
    }

    proof fn lemma_slot(&self, i: int)
        requires
            self.wf(),
            0 <= i < self.keys@.len(),
        ensures
            self.slot_of(self.keys@[i]@) == Some(i),
            self@.contains_key(self.keys@[i]@),
            self@[self.keys@[i]@] == self.values@[i],
    {
        let k = self.keys@[i]@;
        let j = choose|j: int| 0 <= j < self.keys@.len() && self.keys@[j]@ == k;
        assert(j == i);
    }

    proof fn lemma_absent(&self, k: Seq<char>)
        requires
            forall|i: int| 0 <= i < self.keys@.len() ==> self.keys@[i]@ != k,
        ensures
            self.slot_of(k) is None,
            !self@.contains_key(k),
    {
    }

    /// The order lists each key of the map once, and the map is finite.
    pub proof fn lemma_lists(&self)
        requires
            self.wf(),
        ensures
            Self::lists(self.order(), self@),
            self@.dom().finite(),
            self@.len() == self.order().len(),
    {
        assert forall|k: Seq<char>| self@.contains_key(k) <==> self.order().contains(k) by {
            if self@.contains_key(k) {
                let i = self.slot_of(k).unwrap();
                assert(self.order()[i] == k);
            }
            if self.order().contains(k) {
                let i = choose|i: int| 0 <= i < self.order().len() && self.order()[i] == k;
                self.lemma_slot(i);
            }
        }
        self.order().unique_seq_to_set();
        assert(self.order().to_set() =~= self@.dom());
    }

    /// A map without entries.
    pub fn new() -> (map: Self)
        ensures
            map.wf(),
            map@ == Map::<Seq<char>, V>::empty(),
            map.order() == Seq::<Seq<char>>::empty(),
    {
        let map = StringMap { keys: Vec::new(), values: Vec::new() };
        assert(map@ =~= Map::<Seq<char>, V>::empty());
        assert(map.order() =~= Seq::<Seq<char>>::empty());
        map
    }

    /// The number of entries. The order lists each key of the map once.
    pub fn len(&self) -> (n: usize)
        requires
            self.wf(),
        ensures
            n == self.order().len(),
            n == self@.len(),
            self@.dom().finite(),
            Self::lists(self.order(), self@),
    {
        proof {
            self.lemma_lists();
        }
        self.keys.len()
    }

    /// The key of the entry at a place in the order.
    pub fn key_at(&self, i: usize) -> (key: &String)
        requires
            self.wf(),
            i < self.order().len(),
        ensures
            key@ == self.order()[i as int],
            self@.contains_key(key@),
    {
        proof {
            self.lemma_slot(i as int);
        }
        &self.keys[i]
    }

    /// The value of the entry at a place in the order.
    pub fn value_at(&self, i: usize) -> (value: &V)
        requires
            self.wf(),
            i < self.order().len(),
        ensures
            self@.contains_key(self.order()[i as int]),
            *value == self@[self.order()[i as int]],
    {
        proof {
            self.lemma_slot(i as int);
        }
        &self.values[i]
    }

    fn find(&self, key: &String) -> (place: Option<usize>)
        requires
            self.wf(),
        ensures
            place is Some <==> self@.contains_key(key@),
            place matches Some(i) ==> i < self.keys@.len() && self.keys@[i as int]@ == key@
                && self.slot_of(key@) == Some(i as int),
    {
        let mut i: usize = 0;
        while i < self.keys.len()
            invariant
                self.wf(),
                i <= self.keys@.len(),
                forall|j: int| 0 <= j < i ==> self.keys@[j]@ != key@,
            decreases self.keys@.len() - i,
        {
            if self.keys[i] == *key {
                proof {
                    self.lemma_slot(i as int);
                }
                return Some(i);
            }
            i += 1;
        }
        proof {
            self.lemma_absent(key@);
        }
        None
    }

    /// Whether the map has an entry for the key.
    pub fn contains_key(&self, key: &String) -> (found: bool)
        requires
            self.wf(),
        ensures
            found == self@.contains_key(key@),
    {
        self.find(key).is_some()
    }

    /// The value that the map holds for the key, if any.
    pub fn get(&self, key: &String) -> (value: Option<&V>)
        requires
            self.wf(),
        ensures
            value is Some <==> self@.contains_key(key@),
            value matches Some(v) ==> *v == self@[key@],
    {
        match self.find(key) {
            Some(i) => {
                proof {
                    self.lemma_slot(i as int);
                }
                Some(&self.values[i])
            },
            None => None,
        }
    }

    /// Sets the value for the key and gives back the value it had. A key that
    /// is new goes to the end of the order; one that was there keeps its place.
    pub fn insert(&mut self, key: String, value: V) -> (prev: Option<V>)
        requires
            old(self).wf(),
        ensures
            final(self).wf(),
            final(self)@ == old(self)@.insert(key@, value),
            prev == if old(self)@.contains_key(key@) {
                Some(old(self)@[key@])
            } else {
                None::<V>
            },
            final(self).order() == if old(self)@.contains_key(key@) {
                old(self).order()
            } else {
                old(self).order().push(key@)
            },
    {
        let ghost before = *self;
        match self.find(&key) {
            Some(i) => {
                let prev = self.values.remove(i);
                self.values.insert(i, value);
                proof {
                    before.lemma_slot(i as int);
                    assert(self.keys@ == before.keys@);
                    assert forall|k: Seq<char>| self.slot_of(k) == before.slot_of(k) by {}
                    assert(self@ =~= before@.insert(key@, value)) by {
                        assert forall|k: Seq<char>| #[trigger]
                            self@.contains_key(k) implies self@[k] == before@.insert(
                            key@,
                            value,
                        )[k] by {
                            let j = self.slot_of(k).unwrap();
                            if j == i as int {
                                self.lemma_slot(j);
                            }
                        }
                    }
                    assert(self.order() =~= before.order());
                }
                Some(prev)
            },
            None => {
                self.keys.push(key);
                self.values.push(value);
                proof {
                    let n = before.keys@.len() as int;
                    assert forall|a: int, b: int| 0 <= a < b < self.keys@.len() implies self.keys@[a]@
                        != self.keys@[b]@ by {
                        if b == n {
                            if before.keys@[a]@ == key@ {
                                before.lemma_slot(a);
                            }
                        }
                    }
                    self.lemma_slot(n);
                    assert forall|k: Seq<char>|
                        self@.contains_key(k) == before@.insert(key@, value).contains_key(
                            k,
                        ) by {
                        if before@.contains_key(k) {
                            let j = before.slot_of(k).unwrap();
                            assert(self.keys@[j]@ == k);
                        }
                        if self@.contains_key(k) && k != key@ {
                            let j = self.slot_of(k).unwrap();
                            assert(before.keys@[j]@ == k);
                        }
                    }
                    assert forall|k: Seq<char>| #[trigger]
                        self@.contains_key(k) implies self@[k] == before@.insert(key@, value)[k] by {
                        if k != key@ {
                            let j = before.slot_of(k).unwrap();
                            self.lemma_slot(j);
                            before.lemma_slot(j);
                        }
                    }
                    assert(self@ =~= before@.insert(key@, value));
                    assert(self.order() =~= before.order().push(key@));
                }
                None
            },
        }
    }

    /// Takes the entry for the key out of the map and gives back its value.
    /// The other entries keep their order.
    pub fn remove(&mut self, key: &String) -> (prev: Option<V>)
        requires
            old(self).wf(),
        ensures
            final(self).wf(),
            final(self)@ == old(self)@.remove(key@),
            prev == if old(self)@.contains_key(key@) {
                Some(old(self)@[key@])
            } else {
                None::<V>
            },
            final(self).order() == if old(self)@.contains_key(key@) {
                old(self).order().remove(old(self).order().index_of(key@))
            } else {
                old(self).order()
            },
    {
        let ghost before = *self;
        match self.find(key) {
            Some(i) => {
                let _ = self.keys.remove(i);
                let prev = self.values.remove(i);
                proof {
                    before.lemma_slot(i as int);
                    before.lemma_lists();
                    let at = before.order().index_of(key@);
                    assert(before.order()[i as int] == key@);
                    assert(at == i as int);
                    assert(self.order() =~= before.order().remove(at));
                    assert forall|a: int, b: int| 0 <= a < b < self.keys@.len() implies self.keys@[a]@
                        != self.keys@[b]@ by {
                        let a0 = if a < i { a } else { a + 1 };
                        let b0 = if b < i { b } else { b + 1 };
                        assert(self.keys@[a] == before.keys@[a0]);
                        assert(self.keys@[b] == before.keys@[b0]);
                    }
                    assert forall|k: Seq<char>|
                        self@.contains_key(k) == before@.remove(key@).contains_key(k) by {
                        if self@.contains_key(k) {
                            let j = self.slot_of(k).unwrap();
                            let j0 = if j < i { j } else { j + 1 };
                            assert(before.keys@[j0]@ == k);
                        }
                        if before@.contains_key(k) && k != key@ {
                            let j0 = before.slot_of(k).unwrap();
                            let j = if j0 < i { j0 } else { j0 - 1 };
                            assert(self.keys@[j]@ == k);
                        }
                    }
                    assert forall|k: Seq<char>| #[trigger]
                        self@.contains_key(k) implies self@[k] == before@.remove(key@)[k] by {
                        let j = self.slot_of(k).unwrap();
                        let j0 = if j < i { j } else { j + 1 };
                        assert(before.keys@[j0]@ == k);
                        before.lemma_slot(j0);
                    }
                    assert(self@ =~= before@.remove(key@));
                }
                Some(prev)
            },
            None => {
                assert(self@ =~= before@.remove(key@));
                None
            },
        }
    }
}

} // verus!

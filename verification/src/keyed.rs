//! A small map from string keys to values, kept as two parallel vectors in
//! insertion order, in which no key occurs twice.

use vstd::prelude::*;

use crate::text::same_text;

verus! {

/// Entries keyed by strings; inserting under a present key replaces its value.
#[derive(Debug)]
pub struct KeyedList<V> {
    keys: Vec<String>,
    vals: Vec<V>,
}

impl<V> KeyedList<V> {
    /// The keys, in insertion order.
    pub closed spec fn key_seq(&self) -> Seq<Seq<char>> {
        self.keys@.map_values(|k: String| k@)
    }

    /// The values, in the order of their keys.
    pub closed spec fn val_seq(&self) -> Seq<V> {
        self.vals@
    }

    /// Keys and values pair up, and no key occurs twice.
    pub closed spec fn wf(&self) -> bool {
        &&& self.keys@.len() == self.vals@.len()
        &&& forall|i: int, j: int|
            0 <= i < self.keys@.len() && 0 <= j < self.keys@.len() && i != j ==> #[trigger] self.keys@[i]@
                != #[trigger] self.keys@[j]@
    }

    /// The position of key `k`, where it occurs.
    pub closed spec fn position_of(&self, k: Seq<char>) -> int {
        choose|i: int| 0 <= i < self.keys@.len() && self.keys@[i]@ == k
    }

    /// The entries as a map from key to value.
    pub closed spec fn as_map(&self) -> Map<Seq<char>, V> {
        Map::new(
            |k: Seq<char>| exists|i: int| 0 <= i < self.keys@.len() && self.keys@[i]@ == k,
            |k: Seq<char>| self.vals@[self.position_of(k)],
        )
    }

    /// In a well-formed list the position of a present key is the one it holds.
    pub proof fn lemma_position(&self, i: int)
        requires
            self.wf(),
            0 <= i < self.key_seq().len(),
        ensures
            self.position_of(self.key_seq()[i]) == i,
            self.as_map().contains_key(self.key_seq()[i]),
            self.as_map()[self.key_seq()[i]] == self.val_seq()[i],
    {
        let k = self.keys@[i]@;
        assert(self.keys@[i]@ == k);
        let j = self.position_of(k);
        assert(0 <= j < self.keys@.len() && self.keys@[j]@ == k);
    }

    /// Keys and values are equally many.
    pub proof fn lemma_lengths(&self)
        requires
            self.wf(),
        ensures
            self.val_seq().len() == self.key_seq().len(),
    {
    }

    /// Key sequence and map agree on which keys are present.
    pub proof fn lemma_contains(&self, k: Seq<char>)
        requires
            self.wf(),
        ensures
            self.as_map().contains_key(k) <==> self.key_seq().contains(k),
    {
        if self.key_seq().contains(k) {
            let i = choose|i: int| 0 <= i < self.key_seq().len() && self.key_seq()[i] == k;
            assert(self.keys@[i]@ == k);
        }
        if self.as_map().contains_key(k) {
            let i = choose|i: int| 0 <= i < self.keys@.len() && self.keys@[i]@ == k;
            assert(self.key_seq()[i] == k);
        }
    }

    /// The keys of the map are those of the list, finitely many, one per entry.
    pub proof fn lemma_dom(&self)
        requires
            self.wf(),
        ensures
            self.as_map().dom() == self.key_seq().to_set(),
            self.as_map().dom().finite(),
            self.as_map().dom().len() == self.key_seq().len(),
    {
        assert forall|k: Seq<char>| #[trigger] self.as_map().dom().contains(k) <==> self.key_seq().to_set().contains(k) by {
            self.lemma_contains(k);
        }
        assert(self.as_map().dom() =~= self.key_seq().to_set());
        assert(self.key_seq().no_duplicates()) by {
            assert forall|i: int, j: int|
                0 <= i < self.key_seq().len() && 0 <= j < self.key_seq().len() && i != j
                implies self.key_seq()[i] != self.key_seq()[j] by {
                assert(self.keys@[i]@ != self.keys@[j]@);
            }
        }
        self.key_seq().unique_seq_to_set();
        broadcast use vstd::seq_lib::seq_to_set_is_finite;
    }

    /// An empty list.
    pub fn new() -> (r: Self)
        ensures
            r.wf(),
            r.key_seq() == Seq::<Seq<char>>::empty(),
            r.as_map() == Map::<Seq<char>, V>::empty(),
    {
        let r = KeyedList { keys: Vec::new(), vals: Vec::new() };
        assert(r.as_map() =~= Map::<Seq<char>, V>::empty());
        assert(r.key_seq() =~= Seq::<Seq<char>>::empty());
        r
    }

    /// The number of entries.
    pub fn len(&self) -> (n: usize)
        requires
            self.wf(),
        ensures
            n == self.key_seq().len(),
            n == self.as_map().dom().len(),
    {
        proof {
            self.lemma_dom();
        }
        self.keys.len()
    }

    /// The position of `key`, or `None` where it is absent.
    pub fn find(&self, key: &str) -> (r: Option<usize>)
        requires
            self.wf(),
        ensures
            match r {
                Some(i) => i < self.key_seq().len() && self.key_seq()[i as int] == key@,
                None => !self.key_seq().contains(key@),
            },
            r is None <==> !self.as_map().contains_key(key@),
    {
        let n = self.keys.len();
        let mut i: usize = 0;
        while i < n
            invariant
                self.wf(),
                n == self.keys@.len(),
                i <= n,
                forall|j: int| 0 <= j < i ==> self.keys@[j]@ != key@,
            decreases n - i,
        {
            if same_text(self.keys[i].as_str(), key) {
                proof {
                    self.lemma_contains(key@);
                    assert(self.key_seq()[i as int] == key@);
                }
                return Some(i);
            }
            i = i + 1;
        }
        proof {
            self.lemma_contains(key@);
            assert forall|j: int| 0 <= j < self.key_seq().len() implies self.key_seq()[j] != key@ by {
                assert(self.keys@[j]@ != key@);
            }
        }
        None
    }
    /// The value under `key`, or `None` where it is absent.
    pub fn get(&self, key: &str) -> (r: Option<&V>)
        requires
            self.wf(),
        ensures
            r is Some <==> self.as_map().contains_key(key@),
            r matches Some(v) ==> *v == self.as_map()[key@],
    {
        match self.find(key) {
            Some(i) => {
                proof {
                    self.lemma_position(i as int);
                }
                Some(&self.vals[i])
            },
            None => None,
        }
    }

    /// The key at position `i`.
    pub fn key_at(&self, i: usize) -> (k: &String)
        requires
            self.wf(),
            i < self.key_seq().len(),
        ensures
            k@ == self.key_seq()[i as int],
    {
        &self.keys[i]
    }

    /// The value at position `i`.
    pub fn value_at(&self, i: usize) -> (v: &V)
        requires
            self.wf(),
            i < self.key_seq().len(),
        ensures
            *v == self.val_seq()[i as int],
    {
        &self.vals[i]
    }

    /// Stores `value` under `key`, in place of the value it had, if any; a new
    /// key goes after all others.
    pub fn insert(&mut self, key: String, value: V)
        requires
            old(self).wf(),
        ensures
            final(self).wf(),
            final(self).as_map() == old(self).as_map().insert(key@, value),
            old(self).key_seq().contains(key@) ==> final(self).key_seq() == old(self).key_seq(),
            !old(self).key_seq().contains(key@) ==> final(self).key_seq() == old(self).key_seq().push(key@),
    {
        let ghost pre = *self;
        match self.find(key.as_str()) {
            Some(i) => {
                self.vals.set(i, value);
                proof {
                    assert(self.keys@ == pre.keys@);
                    assert(self.key_seq() =~= pre.key_seq());
                    pre.lemma_position(i as int);
                    self.lemma_position(i as int);
                    assert forall|k: Seq<char>| #[trigger] self.as_map().contains_key(k)
                        <==> pre.as_map().insert(key@, value).contains_key(k) by {
                        self.lemma_contains(k);
                        pre.lemma_contains(k);
                    }
                    assert forall|k: Seq<char>| self.as_map().contains_key(k)
                        implies #[trigger] self.as_map()[k] == pre.as_map().insert(key@, value)[k] by {
                        if k != key@ {
                            let p = pre.position_of(k);
                            pre.lemma_contains(k);
                            assert(0 <= p < pre.keys@.len() && pre.keys@[p]@ == k);
                            assert(p != i);
                        }
                    }
                    assert(self.as_map() =~= pre.as_map().insert(key@, value));
                }
            },
            None => {
                self.keys.push(key);
                self.vals.push(value);
                proof {
                    let n = pre.keys@.len();
                    assert(self.key_seq() =~= pre.key_seq().push(key@));
                    assert forall|a: int, b: int|
                        0 <= a < self.keys@.len() && 0 <= b < self.keys@.len() && a != b
                        implies #[trigger] self.keys@[a]@ != #[trigger] self.keys@[b]@ by {
                        if a == n {
                            assert(pre.key_seq()[b] == pre.keys@[b]@);
                        } else if b == n {
                            assert(pre.key_seq()[a] == pre.keys@[a]@);
                        }
                    }
                    self.lemma_position(n as int);
                    assert forall|k: Seq<char>| #[trigger] self.as_map().contains_key(k)
                        <==> pre.as_map().insert(key@, value).contains_key(k) by {
                        self.lemma_contains(k);
                        pre.lemma_contains(k);
                        if k == key@ {
                            assert(self.key_seq()[n as int] == key@);
                        }
                        if pre.key_seq().contains(k) {
                            let p = choose|p: int| 0 <= p < pre.key_seq().len() && pre.key_seq()[p] == k;
                            assert(self.key_seq()[p] == k);
                        }
                        if self.key_seq().contains(k) && k != key@ {
                            let p = choose|p: int| 0 <= p < self.key_seq().len() && self.key_seq()[p] == k;
                            assert(pre.key_seq()[p] == k);
                        }
                    }
                    assert forall|k: Seq<char>| self.as_map().contains_key(k)
                        implies #[trigger] self.as_map()[k] == pre.as_map().insert(key@, value)[k] by {
                        if k != key@ {
                            self.lemma_contains(k);
                            let p = choose|p: int| 0 <= p < self.key_seq().len() && self.key_seq()[p] == k;
                            assert(p != n);
                            self.lemma_position(p);
                            pre.lemma_position(p);
                            assert(pre.key_seq()[p] == k);
                        }
                    }
                    assert(self.as_map() =~= pre.as_map().insert(key@, value));
                }
            },
        }
    }

    /// A mutable borrow of the value at position `i`; the keys stay as they are.
    pub fn value_at_mut(&mut self, i: usize) -> (v: &mut V)
        requires
            old(self).wf(),
            i < old(self).key_seq().len(),
        ensures
            *v == old(self).val_seq()[i as int],
            final(self).key_seq() == old(self).key_seq(),
            final(self).val_seq() == old(self).val_seq().update(i as int, *final(v)),
            final(self).wf(),
    {
        &mut self.vals[i]
    }
}

impl<V: Clone> Clone for KeyedList<V> {
    /// A copy with the same keys in the same order, each value a clone of
    /// the original's.
    fn clone(&self) -> (r: Self)
        ensures
            r.key_seq() == self.key_seq(),
            r.val_seq().len() == self.val_seq().len(),
            forall|i: int|
                0 <= i < self.val_seq().len() ==> cloned::<V>(self.val_seq()[i], #[trigger] r.val_seq()[i]),
            self.wf() ==> r.wf(),
            self.wf() ==> r.as_map().dom() == self.as_map().dom(),
            self.wf() ==> forall|k: Seq<char>| #[trigger] r.as_map().contains_key(k)
                ==> cloned::<V>(self.as_map()[k], r.as_map()[k]),
    {
        let keys = self.keys.clone();
        let vals = self.vals.clone();
        let r = KeyedList { keys, vals };
        proof {
            assert forall|i: int| 0 <= i < self.keys@.len() implies #[trigger] r.keys@[i]@ == self.keys@[i]@ by {
                assert(cloned::<String>(self.keys@[i], r.keys@[i]));
            }
            assert(r.key_seq() =~= self.key_seq());
            if self.wf() {
                assert forall|i: int, j: int|
                    0 <= i < r.keys@.len() && 0 <= j < r.keys@.len() && i != j
                    implies #[trigger] r.keys@[i]@ != #[trigger] r.keys@[j]@ by {
                    assert(self.keys@[i]@ != self.keys@[j]@);
                }
                assert forall|k: Seq<char>| #[trigger] r.as_map().dom().contains(k) <==> self.as_map().dom().contains(k) by {
                    r.lemma_contains(k);
                    self.lemma_contains(k);
                }
                assert(r.as_map().dom() =~= self.as_map().dom());
                assert forall|k: Seq<char>| #[trigger] r.as_map().contains_key(k)
                    implies cloned::<V>(self.as_map()[k], r.as_map()[k]) by {
                    r.lemma_contains(k);
                    let p = choose|p: int| 0 <= p < r.key_seq().len() && r.key_seq()[p] == k;
                    r.lemma_position(p);
                    self.lemma_position(p);
                }
            }
        }
        r
    }
}

} // verus!

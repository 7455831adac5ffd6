//! A table from string keys to values, where a later insert under a key
//! replaces the earlier value. It stands where the engine keys a hash map by
//! `String`: with string keys, the map's specifications do not carry what a
//! lookup gives back, so the table keeps its entries in a vector, each key at
//! most once, and states its lookups over a `Map` view.
use vstd::prelude::*;

verus! {

broadcast use vstd::string::group_string_axioms;

/// Entries keyed by string, each key at most once.
#[derive(Clone)]
pub struct StrTable<V> {
    entries: Vec<(String, V)>,
}

impl<V> StrTable<V> {
    /// Every key stands in one entry only.
    pub open spec fn wf(&self) -> bool {
        forall|i: int, j: int|
            0 <= i < self.spec_entries().len() && 0 <= j < self.spec_entries().len() && i != j
                ==> #[trigger] self.spec_entries()[i].0@ != #[trigger] self.spec_entries()[j].0@
    }

    /// The entries in insertion order.
    pub closed spec fn spec_entries(&self) -> Seq<(String, V)> {
        self.entries@
    }

    /// Whether some entry has key `k`.
    pub open spec fn has_key(&self, k: Seq<char>) -> bool {
        exists|i: int| 0 <= i < self.spec_entries().len() && #[trigger] self.spec_entries()[i].0@ == k
    }

    /// The position of the entry with key `k`.
    pub open spec fn key_index(&self, k: Seq<char>) -> int {
        choose|i: int| 0 <= i < self.spec_entries().len() && #[trigger] self.spec_entries()[i].0@ == k
    }

    /// The table as a map from key text to value.
    pub open spec fn view(&self) -> Map<Seq<char>, V> {
        Map::new(|k: Seq<char>| self.has_key(k), |k: Seq<char>| self.spec_entries()[self.key_index(k)].1)
    }

    /// An empty table.
    pub fn new() -> (r: Self)
        ensures
            r.wf(),
            r.view() == Map::<Seq<char>, V>::empty(),
            r.spec_entries().len() == 0,
    {
        let r = StrTable { entries: Vec::new() };
        assert(r.view() =~= Map::<Seq<char>, V>::empty());
        r
    }

    /// The number of keys.
    pub fn len(&self) -> (n: usize)
        requires
            self.wf(),
        ensures
            n == self.spec_entries().len(),
            n == self.view().dom().len(),
    {
        proof {
            self.lemma_dom_len();
        }
        self.entries.len()
    }

    proof fn lemma_dom_len(&self)
        requires
            self.wf(),
        ensures
            self.view().dom().len() == self.spec_entries().len(),
            self.view().dom().finite(),
        decreases self.spec_entries().len(),
    {
        let s = self.spec_entries();
        let keys = Seq::new(s.len(), |i: int| s[i].0@);
        assert(self.view().dom() =~= keys.to_set()) by {
            assert forall|k: Seq<char>| self.view().dom().contains(k) implies keys.to_set().contains(k) by {
                let i = self.key_index(k);
                assert(keys[i] == k);
            }
            assert forall|k: Seq<char>| keys.to_set().contains(k) implies self.view().dom().contains(k) by {
                let i = choose|i: int| 0 <= i < keys.len() && keys[i] == k;
                assert(s[i].0@ == k);
            }
        }
        assert(keys.no_duplicates()) by {
            assert forall|i: int, j: int| 0 <= i < keys.len() && 0 <= j < keys.len() && i != j
                implies keys[i] != keys[j] by {
                assert(s[i].0@ != s[j].0@);
            }
        }
        keys.unique_seq_to_set();
    }

    /// The index of the entry whose key is `key`, if there is one.
    fn position(&self, key: &String) -> (r: Option<usize>)
        requires
            self.wf(),
        ensures
            r matches Some(i) ==> i < self.spec_entries().len() && self.spec_entries()[i as int].0@
                == key@,
            r is None ==> !self.has_key(key@),
    {
        let mut i: usize = 0;
        while i < self.entries.len()
            invariant
                0 <= i <= self.entries.len(),
                self.entries@ == self.spec_entries(),
                forall|j: int| 0 <= j < i ==> self.spec_entries()[j].0@ != key@,
            decreases self.entries.len() - i,
        {
            if self.entries[i].0 == *key {
                return Some(i);
            }
            i = i + 1;
        }
        None
    }

    /// The value stored under `key`.
    pub fn get(&self, key: &String) -> (r: Option<&V>)
        requires
            self.wf(),
        ensures
            r matches Some(v) ==> self.view().contains_key(key@) && *v == self.view()[key@],
            r is None ==> !self.view().contains_key(key@),
    {
        match self.position(key) {
            Some(i) => {
                proof {
                    let j = self.key_index(key@);
                    assert(self.spec_entries()[j].0@ == key@);
                }
                Some(&self.entries[i].1)
            },
            None => None,
        }
    }

    /// Stores `value` under `key`, replacing any value stored there before.
    pub fn insert(&mut self, key: String, value: V)
        requires
            old(self).wf(),
        ensures
            final(self).wf(),
            final(self).view() == old(self).view().insert(key@, value),
    {
        let ghost old_view = self.view();
        let ghost k = key@;
        match self.position(&key) {
            Some(i) => {
                let ghost old_entries = self.spec_entries();
                self.entries.set(i, (key, value));
                proof {
                    let e = self.spec_entries();
                    assert(e == old_entries.update(i as int, (e[i as int].0, value)));
                    assert forall|a: int, b: int|
                        0 <= a < e.len() && 0 <= b < e.len() && a != b implies #[trigger] e[a].0@
                        != #[trigger] e[b].0@ by {
                        if a != i && b != i {
                            assert(old_entries[a].0@ != old_entries[b].0@);
                        } else if a == i {
                            assert(old_entries[i as int].0@ != old_entries[b].0@);
                        } else {
                            assert(old_entries[i as int].0@ != old_entries[a].0@);
                        }
                    }
                    assert forall|q: Seq<char>| #[trigger] self.view().dom().contains(q)
                        == old_view.insert(k, value).dom().contains(q) by {
                        if old_view.dom().contains(q) {
                            let j = choose|j: int|
                                0 <= j < old_entries.len() && #[trigger] old_entries[j].0@ == q;
                            assert(e[j].0@ == q);
                        }
                        if self.has_key(q) {
                            let j = choose|j: int| 0 <= j < e.len() && #[trigger] e[j].0@ == q;
                            if j != i {
                                assert(old_entries[j].0@ == q);
                            }
                        }
                    }
                    assert forall|q: Seq<char>| #[trigger] self.view().dom().contains(q) implies self.view()[q]
                        == old_view.insert(k, value)[q] by {
                        let j = self.key_index(q);
                        if q == k {
                            assert(j == i);
                        } else {
                            assert(j != i);
                            assert(old_entries[j].0@ == q);
                            let j0 = choose|j0: int|
                                0 <= j0 < old_entries.len() && #[trigger] old_entries[j0].0@ == q;
                            assert(j0 == j);
                        }
                    }
                    assert(self.view() =~= old_view.insert(k, value));
                }
            },
            None => {
                let ghost old_entries = self.spec_entries();
                self.entries.push((key, value));
                proof {
                    let e = self.spec_entries();
                    let n = old_entries.len() as int;
                    assert(e == old_entries.push(e[n]));
                    assert forall|a: int, b: int|
                        0 <= a < e.len() && 0 <= b < e.len() && a != b implies #[trigger] e[a].0@
                        != #[trigger] e[b].0@ by {
                        if a != n && b != n {
                            assert(old_entries[a].0@ != old_entries[b].0@);
                        } else if a == n {
                            assert(old_entries[b].0@ != k);
                        } else {
                            assert(old_entries[a].0@ != k);
                        }
                    }
                    assert forall|q: Seq<char>| #[trigger] self.view().dom().contains(q)
                        == old_view.insert(k, value).dom().contains(q) by {
                        if old_view.dom().contains(q) {
                            let j = choose|j: int|
                                0 <= j < old_entries.len() && #[trigger] old_entries[j].0@ == q;
                            assert(e[j].0@ == q);
                        }
                        if q == k {
                            assert(e[n].0@ == q);
                        }
                        if self.has_key(q) {
                            let j = choose|j: int| 0 <= j < e.len() && #[trigger] e[j].0@ == q;
                            if j != n {
                                assert(old_entries[j].0@ == q);
                            }
                        }
                    }
                    assert forall|q: Seq<char>| #[trigger] self.view().dom().contains(q) implies self.view()[q]
                        == old_view.insert(k, value)[q] by {
                        let j = self.key_index(q);
                        if q == k {
                            assert(j == n);
                        } else {
                            assert(j != n);
                            assert(old_entries[j].0@ == q);
                            let j0 = choose|j0: int|
                                0 <= j0 < old_entries.len() && #[trigger] old_entries[j0].0@ == q;
                            assert(j0 == j);
                        }
                    }
                    assert(self.view() =~= old_view.insert(k, value));
                }
            },
        }
    }

    /// The entries, each key once, in the order their keys were first inserted.
    pub fn pairs(&self) -> (r: &Vec<(String, V)>)
        ensures
            r@ == self.spec_entries(),
    {
        &self.entries
    }
}

} // verus!

//! A small association map with `u64` keys, viewed in specifications as a
//! `Map<u64, V>`.  Entry order carries no meaning.  It backs the GPU
//! resource store and the model of the engine's loaded-asset catalog.

use vstd::prelude::*;

verus! {

/// One key/value pair.
#[derive(Clone, Copy, Debug)]
pub struct KeyValue<V> {
    /// The key.
    pub key: u64,
    /// The value stored under it.
    pub value: V,
}

/// No two entries share a key.
pub open spec fn distinct_keys<V>(s: Seq<KeyValue<V>>) -> bool {
    forall|i: int, j: int|
        0 <= i < j < s.len() ==> (#[trigger] s[i]).key != (#[trigger] s[j]).key
}

/// Some entry of `s` carries the key `k`.
pub open spec fn holds_key<V>(s: Seq<KeyValue<V>>, k: u64) -> bool {
    exists|i: int| 0 <= i < s.len() && (#[trigger] s[i]).key == k
}

/// The index of the entry carrying key `k` (unique when `distinct_keys`).
pub open spec fn entry_index<V>(s: Seq<KeyValue<V>>, k: u64) -> int {
    choose|i: int| 0 <= i < s.len() && (#[trigger] s[i]).key == k
}

/// With distinct keys, an entry's index is the one `entry_index` picks.
pub proof fn lemma_distinct_key_at<V>(s: Seq<KeyValue<V>>, i: int)
    requires
        distinct_keys(s),
        0 <= i < s.len(),
    ensures
        holds_key(s, s[i].key),
        entry_index(s, s[i].key) == i,
{
    let k = s[i].key;
    assert(holds_key(s, k));
    let j = entry_index(s, k);
    if i < j {
        assert(s[i].key != s[j].key);
    } else if j < i {
        assert(s[j].key != s[i].key);
    }
}

/// An association map with `u64` keys.
pub struct VecMap<V> {
    entries: Vec<KeyValue<V>>,
}

impl<V> View for VecMap<V> {
    type V = Map<u64, V>;

    closed spec fn view(&self) -> Map<u64, V> {
        Map::new(
            |k: u64| holds_key(self.entries@, k),
            |k: u64| self.entries@[entry_index(self.entries@, k)].value,
        )
    }
}

impl<V> VecMap<V> {
    /// Internal invariant: keys are unique, so the entry list denotes a map.
    pub closed spec fn wf(self) -> bool {
        distinct_keys(self.entries@)
    }

    /// With the invariant, every entry is visible in the map view.
    proof fn lemma_entry_in_view(self, i: int)
        requires
            self.wf(),
            0 <= i < self.entries@.len(),
        ensures
            self@.contains_key(self.entries@[i].key),
            self@[self.entries@[i].key] == self.entries@[i].value,
    {
        lemma_distinct_key_at(self.entries@, i);
    }

    /// An empty map.
    pub fn new() -> (r: VecMap<V>)
        ensures
            r.wf(),
            r@ == Map::<u64, V>::empty(),
    {
        let r = VecMap { entries: Vec::new() };
        proof {
            assert(r@ =~= Map::<u64, V>::empty());
        }
        r
    }

    /// The index holding key `k`, if any.
    fn index_of(&self, k: u64) -> (r: Option<usize>)
        ensures
            match r {
                Some(i) => i < self.entries@.len() && self.entries@[i as int].key == k,
                None => !holds_key(self.entries@, k),
            },
    {
        let n = self.entries.len();
        let mut i: usize = 0;
        while i < n
            invariant
                i <= n,
                n == self.entries@.len(),
                forall|j: int| 0 <= j < i ==> (#[trigger] self.entries@[j]).key != k,
            decreases n - i,
        {
            if self.entries[i].key == k {
                return Some(i);
            }
            i = i + 1;
        }
        None
    }

    /// Whether a value is stored under `k`.
    pub fn contains_key(&self, k: u64) -> (r: bool)
        requires
            self.wf(),
        ensures
            r == self@.contains_key(k),
    {
        let found = self.index_of(k);
        proof {
            if let Some(i) = found {
                self.lemma_entry_in_view(i as int);
            }
        }
        match found {
            Some(_) => true,
            None => false,
        }
    }

    /// All keys, each exactly once.
    pub fn keys(&self) -> (r: Vec<u64>)
        requires
            self.wf(),
        ensures
            forall|a: int, b: int| 0 <= a < b < r@.len() ==> r@[a] != r@[b],
            forall|j: int| 0 <= j < r@.len() ==> self@.contains_key(#[trigger] r@[j]),
            forall|k: u64| #[trigger] self@.contains_key(k) ==> r@.contains(k),
    {
        let n = self.entries.len();
        let mut r: Vec<u64> = Vec::new();
        let mut i: usize = 0;
        while i < n
            invariant
                i <= n,
                self.wf(),
                n == self.entries@.len(),
                r@.len() == i,
                forall|j: int| 0 <= j < i ==> r@[j] == (#[trigger] self.entries@[j]).key,
            decreases n - i,
        {
            r.push(self.entries[i].key);
            i = i + 1;
        }
        proof {
            assert forall|a: int, b: int| 0 <= a < b < r@.len() implies r@[a] != r@[b] by {
                assert(r@[a] == self.entries@[a].key);
                assert(r@[b] == self.entries@[b].key);
            }
            assert forall|j: int| 0 <= j < r@.len() implies self@.contains_key(
                #[trigger] r@[j]) by {
                self.lemma_entry_in_view(j);
            }
            assert forall|k: u64| #[trigger] self@.contains_key(k) implies r@.contains(k) by {
                let j = entry_index(self.entries@, k);
                assert(0 <= j < self.entries@.len() && self.entries@[j].key == k);
                assert(r@[j] == k);
            }
        }
        r
    }
}

impl<V: Copy> VecMap<V> {
    /// The value stored under `k`, if any.
    pub fn get(&self, k: u64) -> (r: Option<V>)
        requires
            self.wf(),
        ensures
            r == if self@.contains_key(k) {
                Some(self@[k])
            } else {
                None::<V>
            },
    {
        let found = self.index_of(k);
        match found {
            Some(i) => {
                proof {
                    self.lemma_entry_in_view(i as int);
                }
                Some(self.entries[i].value)
            }
            None => {
                proof {
                    assert(!self@.contains_key(k));
                }
                None
            }
        }
    }

    /// Stores `v` under `k`, replacing what was there.
    pub fn insert(&mut self, k: u64, v: V)
        requires
            old(self).wf(),
        ensures
            final(self).wf(),
            final(self)@ == old(self)@.insert(k, v),
    {
        let entry = KeyValue { key: k, value: v };
        let found = self.index_of(k);
        match found {
            Some(i) => {
                self.entries[i] = entry;
            }
            None => {
                self.entries.push(entry);
            }
        }
        proof {
            let s0 = old(self).entries@;
            let s1 = self.entries@;
            assert forall|i: int, j: int|
                0 <= i < j < s1.len() implies (#[trigger] s1[i]).key != (
            #[trigger] s1[j]).key by {
                if j < s0.len() {
                    assert(s0[i].key != s0[j].key);
                }
                if found is None && j == s0.len() {
                    assert(!holds_key(s0, k));
                    assert(s1[i] == s0[i]);
                }
            }
            assert forall|q: u64| holds_key(s1, q) == (q == k || holds_key(s0, q)) by {
                if holds_key(s1, q) {
                    let i = entry_index(s1, q);
                    assert(0 <= i < s1.len() && s1[i].key == q);
                    if i < s0.len() && s1[i] == s0[i] {
                        assert(holds_key(s0, q));
                    } else {
                        assert(s1[i] == entry);
                    }
                }
                if q == k {
                    if let Some(i) = found {
                        assert(s1[i as int] == entry);
                        assert(holds_key(s1, q));
                    } else {
                        assert(s1[s0.len() as int] == entry);
                        assert(holds_key(s1, q));
                    }
                } else if holds_key(s0, q) {
                    let i = entry_index(s0, q);
                    assert(0 <= i < s0.len() && s0[i].key == q);
                    assert(s1[i] == s0[i]);
                    assert(holds_key(s1, q));
                }
            }
            assert forall|q: u64| #[trigger] self@.contains_key(q) implies self@[q] == old(
                self,
            )@.insert(k, v)[q] by {
                let i = entry_index(s1, q);
                assert(0 <= i < s1.len() && s1[i].key == q);
                if q == k {
                    if i < s0.len() && s1[i] == s0[i] {
                        assert(s0[i].key == k);
                        assert(found is Some);
                        let fi = found->0 as int;
                        assert(s0[fi].key == k);
                        lemma_distinct_key_at(s1, fi);
                        assert(i == fi);
                        assert(s1[i] == entry);
                    } else {
                        assert(s1[i] == entry);
                    }
                } else {
                    assert(s1[i] == s0[i]);
                    lemma_distinct_key_at(s0, i);
                }
            }
            assert(self@ =~= old(self)@.insert(k, v));
        }
    }

    /// Removes and returns the value stored under `k`; a second removal of
    /// the same key finds nothing.
    pub fn remove(&mut self, k: u64) -> (r: Option<V>)
        requires
            old(self).wf(),
        ensures
            final(self).wf(),
            final(self)@ == old(self)@.remove(k),
            r == if old(self)@.contains_key(k) {
                Some(old(self)@[k])
            } else {
                None::<V>
            },
    {
        let found = self.index_of(k);
        match found {
            Some(i) => {
                proof {
                    self.lemma_entry_in_view(i as int);
                }
                let e = self.entries.remove(i);
                proof {
                    let s0 = old(self).entries@;
                    let s1 = self.entries@;
                    let fi = i as int;
                    assert forall|a: int, b: int|
                        0 <= a < b < s1.len() implies (#[trigger] s1[a]).key != (
                    #[trigger] s1[b]).key by {
                        let a0: int = if a < fi {
                            a
                        } else {
                            a + 1
                        };
                        let b0: int = if b < fi {
                            b
                        } else {
                            b + 1
                        };
                        assert(s1[a] == s0[a0]);
                        assert(s1[b] == s0[b0]);
                    }
                    assert forall|q: u64| holds_key(s1, q) == (q != k && holds_key(s0, q)) by {
                        if holds_key(s1, q) {
                            let j = entry_index(s1, q);
                            let j0: int = if j < fi {
                                j
                            } else {
                                j + 1
                            };
                            assert(s1[j] == s0[j0]);
                            assert(holds_key(s0, q));
                            if q == k {
                                lemma_distinct_key_at(s0, j0);
                                lemma_distinct_key_at(s0, fi);
                            }
                        }
                        if q != k && holds_key(s0, q) {
                            let j0 = entry_index(s0, q);
                            assert(0 <= j0 < s0.len() && s0[j0].key == q);
                            assert(j0 != fi);
                            let j: int = if j0 < fi {
                                j0
                            } else {
                                j0 - 1
                            };
                            assert(s1[j] == s0[j0]);
                            assert(holds_key(s1, q));
                        }
                    }
                    assert forall|q: u64| #[trigger] self@.contains_key(q) implies self@[q] == old(
                        self,
                    )@[q] by {
                        let j = entry_index(s1, q);
                        assert(0 <= j < s1.len() && s1[j].key == q);
                        let j0: int = if j < fi {
                            j
                        } else {
                            j + 1
                        };
                        assert(s1[j] == s0[j0]);
                        lemma_distinct_key_at(s0, j0);
                    }
                    assert(self@ =~= old(self)@.remove(k));
                }
                Some(e.value)
            }
            None => {
                proof {
                    assert(!self@.contains_key(k));
                    assert(self@ =~= old(self)@.remove(k));
                }
                None
            }
        }
    }
}

} // verus!

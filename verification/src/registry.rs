//! The user-visible texture registry: a mapping from a `u32` id chosen by
//! user code to a texture handle.  The mapping is viewed in specifications
//! as a `Map<u32, TexHandle>`; entry order carries no meaning.

use crate::handle::TexHandle;
use vstd::prelude::*;

verus! {

/// One registry entry: the user-chosen id and the handle stored under it.
#[derive(Clone, Copy, Debug, PartialEq, Eq, Structural)]
pub struct RegistryEntry {
    /// The id user code picked for this texture.
    pub user_id: u32,
    /// The handle stored under that id.
    pub handle: TexHandle,
}

/// No two entries share a user id.
pub open spec fn unique_keys(s: Seq<RegistryEntry>) -> bool {
    forall|i: int, j: int|
        0 <= i < j < s.len() ==> (#[trigger] s[i]).user_id != (#[trigger] s[j]).user_id
}

/// Some entry of `s` carries the user id `k`.
pub open spec fn has_key(s: Seq<RegistryEntry>, k: u32) -> bool {
    exists|i: int| 0 <= i < s.len() && (#[trigger] s[i]).user_id == k
}

/// The index of the entry carrying user id `k` (unique when `unique_keys`).
pub open spec fn key_index(s: Seq<RegistryEntry>, k: u32) -> int {
    choose|i: int| 0 <= i < s.len() && (#[trigger] s[i]).user_id == k
}

/// With unique keys, an entry's index is the one `key_index` picks.
pub proof fn lemma_unique_key_at(s: Seq<RegistryEntry>, i: int)
    requires
        unique_keys(s),
        0 <= i < s.len(),
    ensures
        has_key(s, s[i].user_id),
        key_index(s, s[i].user_id) == i,
{
    let k = s[i].user_id;
    assert(has_key(s, k));
    let j = key_index(s, k);
    assert(0 <= j < s.len() && s[j].user_id == k);
    if i < j {
        assert(s[i].user_id != s[j].user_id);
    } else if j < i {
        assert(s[j].user_id != s[i].user_id);
    }
}

/// Some value of the registry map points at the asset with id `hid`.
pub open spec fn is_handle_of(m: Map<u32, TexHandle>, hid: u64) -> bool {
    exists|k: u32| #[trigger] m.contains_key(k) && m[k].id == hid
}

/// Law: storing a handle under an id and reading the registry back yields
/// that handle; removing the id yields absence; and removing it again
/// changes nothing, so removal is idempotent.
pub proof fn lemma_registry_round_trip(m: Map<u32, TexHandle>, k: u32, h: TexHandle)
    ensures
        m.insert(k, h).contains_key(k),
        m.insert(k, h)[k] == h,
        !m.insert(k, h).remove(k).contains_key(k),
        !m.remove(k).contains_key(k),
        m.remove(k).remove(k) == m.remove(k),
{
    assert(m.remove(k).remove(k) =~= m.remove(k));
}

/// The user-managed registry mapping `u32` ids to texture handles.
pub struct TextureRegistry {
    entries: Vec<RegistryEntry>,
}

impl View for TextureRegistry {
    type V = Map<u32, TexHandle>;

    closed spec fn view(&self) -> Map<u32, TexHandle> {
        Map::new(
            |k: u32| has_key(self.entries@, k),
            |k: u32| self.entries@[key_index(self.entries@, k)].handle,
        )
    }
}

impl TextureRegistry {
    /// Internal invariant: user ids are unique, so the sequence of entries
    /// denotes a map.
    pub closed spec fn wf(self) -> bool {
        unique_keys(self.entries@)
    }

    /// With the invariant, every entry is visible in the map view.
    proof fn lemma_entry_in_view(self, i: int)
        requires
            self.wf(),
            0 <= i < self.entries@.len(),
        ensures
            self@.contains_key(self.entries@[i].user_id),
            self@[self.entries@[i].user_id] == self.entries@[i].handle,
    {
        lemma_unique_key_at(self.entries@, i);
    }

    /// An empty registry.
    pub fn new() -> (r: TextureRegistry)
        ensures
            r.wf(),
            r@ == Map::<u32, TexHandle>::empty(),
    {
        let r = TextureRegistry { entries: Vec::new() };
        proof {
            assert(r@ =~= Map::<u32, TexHandle>::empty());
        }
        r
    }

    /// The index holding user id `id`, if any.
    fn index_of(&self, id: u32) -> (r: Option<usize>)
        ensures
            match r {
                Some(i) => i < self.entries@.len() && self.entries@[i as int].user_id == id,
                None => !has_key(self.entries@, id),
            },
    {
        let n = self.entries.len();
        let mut i: usize = 0;
        while i < n
            invariant
                i <= n,
                n == self.entries@.len(),
                forall|j: int| 0 <= j < i ==> (#[trigger] self.entries@[j]).user_id != id,
            decreases n - i,
        {
            if self.entries[i].user_id == id {
                return Some(i);
            }
            i = i + 1;
        }
        None
    }

    /// Inserts or replaces the handle stored under `id`.
    pub fn set_megaui_texture(&mut self, id: u32, handle: TexHandle)
        requires
            old(self).wf(),
        ensures
            final(self).wf(),
            final(self)@ == old(self)@.insert(id, handle),
    {
        let entry = RegistryEntry { user_id: id, handle };
        let found = self.index_of(id);
        match found {
            Some(i) => {
                self.entries[i] = entry;
            }
            None => {
                self.entries.push(entry);
            }
        }
        proof {
            let s0 = old(self).entries@;
            let s1 = self.entries@;
            assert forall|i: int, j: int| 0 <= i < j < s1.len() implies (#[trigger] s1[i]).user_id != (
            #[trigger] s1[j]).user_id by {
                if j < s0.len() {
                    assert(s0[i].user_id != s0[j].user_id);
                }
                if found is None && j == s0.len() {
                    assert(!has_key(s0, id));
                    assert(s1[i] == s0[i]);
                }
            }
            assert forall|k: u32| has_key(s1, k) == (k == id || has_key(s0, k)) by {
                if has_key(s1, k) {
                    let i = key_index(s1, k);
                    assert(0 <= i < s1.len() && s1[i].user_id == k);
                    if i < s0.len() && s1[i] == s0[i] {
                        assert(has_key(s0, k));
                    } else {
                        assert(s1[i] == entry);
                    }
                }
                if k == id {
                    if let Some(i) = found {
                        assert(s1[i as int] == entry);
                        assert(has_key(s1, k));
                    } else {
                        assert(s1[s0.len() as int] == entry);
                        assert(has_key(s1, k));
                    }
                } else if has_key(s0, k) {
                    let i = key_index(s0, k);
                    assert(0 <= i < s0.len() && s0[i].user_id == k);
                    assert(s1[i] == s0[i]);
                    assert(has_key(s1, k));
                }
            }
            assert forall|k: u32| #[trigger] self@.contains_key(k) implies self@[k]
                == old(self)@.insert(id, handle)[k] by {
                let i = key_index(s1, k);
                assert(0 <= i < s1.len() && s1[i].user_id == k);
                if k == id {
                    if i < s0.len() && s1[i] == s0[i] {
                        assert(s0[i].user_id == id);
                        assert(found is Some);
                        let fi = found->0 as int;
                        assert(s0[fi].user_id == id);
                        lemma_unique_key_at(s1, fi);
                        assert(i == fi);
                        assert(s1[i] == entry);
                    } else {
                        assert(s1[i] == entry);
                    }
                } else {
                    assert(s1[i] == s0[i]);
                    lemma_unique_key_at(s0, i);
                }
            }
            assert(self@ =~= old(self)@.insert(id, handle));
        }
    }

    /// Removes the entry stored under `id`; does nothing when absent, so
    /// repeated removal is idempotent.
    pub fn remove_megaui_texture(&mut self, id: u32)
        requires
            old(self).wf(),
        ensures
            final(self).wf(),
            final(self)@ == old(self)@.remove(id),
    {
        let found = self.index_of(id);
        match found {
            Some(i) => {
                self.entries.remove(i);
                proof {
                    let s0 = old(self).entries@;
                    let s1 = self.entries@;
                    let fi = i as int;
                    assert(s1 =~= s0.subrange(0, fi) + s0.subrange(fi + 1, s0.len() as int));
                    assert forall|a: int, b: int| 0 <= a < b < s1.len() implies (#[trigger] s1[a]).user_id != (
                    #[trigger] s1[b]).user_id by {
                        let a0: int = if a < fi { a } else { a + 1 };
                        let b0: int = if b < fi { b } else { b + 1 };
                        assert(s1[a] == s0[a0]);
                        assert(s1[b] == s0[b0]);
                    }
                    assert forall|k: u32| has_key(s1, k) == (k != id && has_key(s0, k)) by {
                        if has_key(s1, k) {
                            let j = key_index(s1, k);
                            let j0: int = if j < fi { j } else { j + 1 };
                            assert(s1[j] == s0[j0]);
                            assert(has_key(s0, k));
                            if k == id {
                                lemma_unique_key_at(s0, j0);
                                lemma_unique_key_at(s0, fi);
                            }
                        }
                        if k != id && has_key(s0, k) {
                            let j0 = key_index(s0, k);
                            assert(0 <= j0 < s0.len() && s0[j0].user_id == k);
                            assert(j0 != fi);
                            let j: int = if j0 < fi { j0 } else { j0 - 1 };
                            assert(s1[j] == s0[j0]);
                            assert(has_key(s1, k));
                        }
                    }
                    assert forall|k: u32| #[trigger] self@.contains_key(k) implies self@[k]
                        == old(self)@[k] by {
                        let j = key_index(s1, k);
                        let j0: int = if j < fi { j } else { j + 1 };
                        assert(s1[j] == s0[j0]);
                        lemma_unique_key_at(s0, j0);
                    }
                    assert(self@ =~= old(self)@.remove(id));
                }
            }
            None => {
                proof {
                    assert(self@ =~= old(self)@.remove(id));
                }
            }
        }
    }

    /// The handle stored under `id`, if any.
    pub fn get(&self, id: u32) -> (r: Option<TexHandle>)
        requires
            self.wf(),
        ensures
            r == if self@.contains_key(id) {
                Some(self@[id])
            } else {
                None::<TexHandle>
            },
    {
        let found = self.index_of(id);
        match found {
            Some(i) => {
                proof {
                    lemma_unique_key_at(self.entries@, i as int);
                }
                Some(self.entries[i].handle)
            }
            None => None,
        }
    }

    /// Whether some entry's handle points at the asset with id `handle_id`.
    pub fn contains_handle(&self, handle_id: u64) -> (r: bool)
        requires
            self.wf(),
        ensures
            r == is_handle_of(self@, handle_id),
    {
        let n = self.entries.len();
        let mut i: usize = 0;
        while i < n
            invariant
                i <= n,
                self.wf(),
                n == self.entries@.len(),
                forall|j: int| 0 <= j < i ==> (#[trigger] self.entries@[j]).handle.id != handle_id,
            decreases n - i,
        {
            if self.entries[i].handle.id == handle_id {
                proof {
                    self.lemma_entry_in_view(i as int);
                }
                return true;
            }
            i = i + 1;
        }
        proof {
            assert forall|k: u32| #[trigger] self@.contains_key(k) implies self@[k].id != handle_id by {
                let j = key_index(self.entries@, k);
                assert(0 <= j < self.entries@.len() && self.entries@[j].user_id == k);
            }
        }
        false
    }

    /// Removes every entry whose handle points at the asset with id
    /// `handle_id` (called when that asset is removed from the engine).
    pub fn remove_handle(&mut self, handle_id: u64)
        requires
            old(self).wf(),
        ensures
            final(self).wf(),
            final(self)@ == Map::new(
                |k: u32| old(self)@.contains_key(k) && old(self)@[k].id != handle_id,
                |k: u32| old(self)@[k],
            ),
    {
        let ghost s0 = self.entries@;
        let n = self.entries.len();
        let mut kept: Vec<RegistryEntry> = Vec::new();
        let mut i: usize = 0;
        while i < n
            invariant
                i <= n,
                n == s0.len(),
                self.entries@ == s0,
                unique_keys(s0),
                forall|j: int|
                    0 <= j < kept@.len() ==> (#[trigger] kept@[j]).handle.id != handle_id,
                forall|j: int|
                    0 <= j < kept@.len() ==> exists|l: int|
                        0 <= l < i && s0[l] == (#[trigger] kept@[j]),
                forall|l: int|
                    0 <= l < i && (#[trigger] s0[l]).handle.id != handle_id ==> kept@.contains(
                        s0[l]),
                unique_keys(kept@),
            decreases n - i,
        {
            let ghost k0 = kept@;
            let e = self.entries[i];
            if e.handle.id != handle_id {
                kept.push(e);
                proof {
                    assert(kept@ == k0.push(e));
                    assert forall|a: int, b: int|
                        0 <= a < b < kept@.len() implies (#[trigger] kept@[a]).user_id != (
                    #[trigger] kept@[b]).user_id by {
                        if b < k0.len() {
                            assert(kept@[a] == k0[a] && kept@[b] == k0[b]);
                        } else {
                            assert(kept@[b] == e);
                            assert(kept@[a] == k0[a]);
                            let l = choose|l: int| 0 <= l < i && s0[l] == k0[a];
                            assert(s0[l].user_id != s0[i as int].user_id);
                        }
                    }
                    assert forall|l: int|
                        0 <= l < i + 1 && (#[trigger] s0[l]).handle.id
                            != handle_id implies kept@.contains(s0[l]) by {
                        if l < i {
                            let j = choose|j: int| 0 <= j < k0.len() && k0[j] == s0[l];
                            assert(kept@[j] == s0[l]);
                        } else {
                            assert(kept@[k0.len() as int] == s0[l]);
                        }
                    }
                }
            }
            i = i + 1;
        }
        self.entries = kept;
        proof {
            let s1 = self.entries@;
            let m = Map::new(
                |k: u32| old(self)@.contains_key(k) && old(self)@[k].id != handle_id,
                |k: u32| old(self)@[k],
            );
            assert forall|k: u32| has_key(s1, k) == (old(self)@.contains_key(k)
                && old(self)@[k].id != handle_id) by {
                if has_key(s1, k) {
                    let j = key_index(s1, k);
                    assert(0 <= j < s1.len() && s1[j].user_id == k);
                    let l = choose|l: int| 0 <= l < s0.len() && s0[l] == s1[j];
                    lemma_unique_key_at(s0, l);
                    assert(old(self)@.contains_key(k) && old(self)@[k] == s1[j].handle);
                }
                if old(self)@.contains_key(k) && old(self)@[k].id != handle_id {
                    let l = key_index(s0, k);
                    assert(0 <= l < s0.len() && s0[l].user_id == k);
                    lemma_unique_key_at(s0, l);
                    assert(s1.contains(s0[l]));
                    let j = choose|j: int| 0 <= j < s1.len() && s1[j] == s0[l];
                    assert(s1[j].user_id == k);
                    assert(has_key(s1, k));
                }
            }
            assert forall|k: u32| #[trigger] self@.contains_key(k) implies self@[k] == m[k] by {
                let j = key_index(s1, k);
                assert(0 <= j < s1.len() && s1[j].user_id == k);
                let l = choose|l: int| 0 <= l < s0.len() && s0[l] == s1[j];
                lemma_unique_key_at(s0, l);
            }
            assert(self@ =~= m);
        }
    }

    /// The asset ids of all handles currently stored in the registry.
    pub fn handle_ids(&self) -> (r: Vec<u64>)
        requires
            self.wf(),
        ensures
            forall|j: int| 0 <= j < r@.len() ==> is_handle_of(self@, #[trigger] r@[j]),
            forall|k: u32| #[trigger] self@.contains_key(k) ==> r@.contains(self@[k].id),
    {
        let n = self.entries.len();
        let mut r: Vec<u64> = Vec::new();
        let mut i: usize = 0;
        while i < n
            invariant
                i <= n,
                self.wf(),
                n == self.entries@.len(),
                forall|j: int| 0 <= j < r@.len() ==> is_handle_of(self@, #[trigger] r@[j]),
                forall|l: int| 0 <= l < i ==> r@.contains((#[trigger] self.entries@[l]).handle.id),
            decreases n - i,
        {
            let ghost r0 = r@;
            proof {
                self.lemma_entry_in_view(i as int);
            }
            r.push(self.entries[i].handle.id);
            proof {
                assert(r@ == r0.push(self.entries@[i as int].handle.id));
                assert forall|l: int| 0 <= l <= i implies r@.contains(
                    (#[trigger] self.entries@[l]).handle.id) by {
                    if l < i {
                        let j = choose|j: int|
                            0 <= j < r0.len() && r0[j] == self.entries@[l].handle.id;
                        assert(r@[j] == self.entries@[l].handle.id);
                    } else {
                        assert(r@[r0.len() as int] == self.entries@[l].handle.id);
                    }
                }
            }
            i = i + 1;
        }
        proof {
            assert forall|k: u32| #[trigger] self@.contains_key(k) implies r@.contains(
                self@[k].id) by {
                let l = key_index(self.entries@, k);
                assert(0 <= l < self.entries@.len() && self.entries@[l].user_id == k);
                self.lemma_entry_in_view(l);
            }
        }
        r
    }

}

} // verus!

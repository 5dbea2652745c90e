//! The render node's retained state and its per-frame texture lifecycle:
//! draining asset events, garbage-collecting resources that no longer back
//! any registry entry, planning creation of missing textures, and swapping
//! the per-frame vertex and index buffers.
//!
//! Every function here decides; the GPU work itself (allocating, copying,
//! freeing) is returned as plain task values that the unverified shell
//! performs, reporting freshly allocated ids back.

use crate::attachments::PassFrame;
use crate::registry::{is_handle_of, TextureRegistry};
use crate::textures::{
    releases_from, AssetCatalog, CopyTask, CreateTask, Released, TextureResource, TextureStore,
};
use crate::vecmap::VecMap;
use vstd::prelude::*;

verus! {

broadcast use vstd::seq_lib::lemma_seq_contains_after_push;

/// One engine asset event for the texture asset type.
#[derive(Clone, Copy, Debug, PartialEq, Eq, Structural)]
pub enum AssetEvent {
    /// The asset was first loaded.
    Created {
        /// Handle id of the asset.
        handle_id: u64,
    },
    /// The asset's contents were mutated in place.
    Modified {
        /// Handle id of the asset.
        handle_id: u64,
    },
    /// The asset was removed from the asset store.
    Removed {
        /// Handle id of the asset.
        handle_id: u64,
    },
}

/// Some event of the stream removes the asset with handle id `h`.
pub open spec fn removed_in(events: Seq<AssetEvent>, h: u64) -> bool {
    exists|i: int|
        0 <= i < events.len() && (#[trigger] events[i]) == AssetEvent::Removed { handle_id: h }
}

/// Some event of the stream modifies the asset with handle id `h`.
pub open spec fn modified_in(events: Seq<AssetEvent>, h: u64) -> bool {
    exists|i: int|
        0 <= i < events.len() && (#[trigger] events[i]) == AssetEvent::Modified { handle_id: h }
}

/// No event of the frame disturbs a texture realised for `h`: nothing
/// removes its asset, and an in-place modification of a loaded asset kept
/// a descriptor compatible with the realised one.
pub open spec fn undisturbed(
    events: Seq<AssetEvent>,
    assets: Map<u64, crate::handle::TextureDescriptor>,
    store: Map<u64, TextureResource>,
    h: u64,
) -> bool {
    &&& !removed_in(events, h)
    &&& (modified_in(events, h) && assets.contains_key(h) ==> assets[h] == store[h].descriptor)
}

/// Extending an event prefix by one event extends what it removes and
/// modifies by exactly that event.
proof fn lemma_event_prefix_step(events: Seq<AssetEvent>, i: int, h: u64)
    requires
        0 <= i < events.len(),
    ensures
        removed_in(events.take(i + 1), h) == (removed_in(events.take(i), h) || events[i]
            == AssetEvent::Removed { handle_id: h }),
        modified_in(events.take(i + 1), h) == (modified_in(events.take(i), h) || events[i]
            == AssetEvent::Modified { handle_id: h }),
{
    let t0 = events.take(i);
    let t1 = events.take(i + 1);
    assert(t1.drop_last() =~= t0);
    assert(t1.last() == events[i]);
    if removed_in(t1, h) {
        let j = choose|j: int|
            0 <= j < t1.len() && (#[trigger] t1[j]) == AssetEvent::Removed { handle_id: h };
        if j < i {
            assert(t0[j] == t1[j]);
            assert(removed_in(t0, h));
        }
    }
    if removed_in(t0, h) {
        let j = choose|j: int|
            0 <= j < t0.len() && (#[trigger] t0[j]) == AssetEvent::Removed { handle_id: h };
        assert(t1[j] == t0[j]);
        assert(removed_in(t1, h));
    }
    if events[i] == (AssetEvent::Removed { handle_id: h }) {
        assert(t1[i] == events[i]);
        assert(removed_in(t1, h));
    }
    if modified_in(t1, h) {
        let j = choose|j: int|
            0 <= j < t1.len() && (#[trigger] t1[j]) == AssetEvent::Modified { handle_id: h };
        if j < i {
            assert(t0[j] == t1[j]);
            assert(modified_in(t0, h));
        }
    }
    if modified_in(t0, h) {
        let j = choose|j: int|
            0 <= j < t0.len() && (#[trigger] t0[j]) == AssetEvent::Modified { handle_id: h };
        assert(t1[j] == t0[j]);
        assert(modified_in(t1, h));
    }
    if events[i] == (AssetEvent::Modified { handle_id: h }) {
        assert(t1[i] == events[i]);
        assert(modified_in(t1, h));
    }
}

/// Some release record of `rs` is for handle id `h`.
pub open spec fn in_releases(rs: Seq<Released>, h: u64) -> bool {
    exists|j: int| 0 <= j < rs.len() && (#[trigger] rs[j]).handle_id == h
}

/// Some copy task of `cs` is for handle id `h`.
pub open spec fn in_copies(cs: Seq<CopyTask>, h: u64) -> bool {
    exists|t: int| 0 <= t < cs.len() && (#[trigger] cs[t]).handle_id == h
}

/// Some planned creation of `cs` is for handle id `h`.
pub open spec fn in_creates(cs: Seq<CreateTask>, h: u64) -> bool {
    exists|t: int| 0 <= t < cs.len() && (#[trigger] cs[t]).handle_id == h
}

/// No two release records are for the same handle: nothing is freed twice.
pub open spec fn releases_distinct(rs: Seq<Released>) -> bool {
    forall|a: int, b: int|
        0 <= a < b < rs.len() ==> (#[trigger] rs[a]).handle_id != (#[trigger] rs[b]).handle_id
}

/// Concatenating release lists joins what they release.
pub proof fn lemma_in_releases_add(a: Seq<Released>, b: Seq<Released>, q: u64)
    ensures
        in_releases(a + b, q) == (in_releases(a, q) || in_releases(b, q)),
{
    let ab = a + b;
    if in_releases(ab, q) {
        let j = choose|j: int| 0 <= j < ab.len() && (#[trigger] ab[j]).handle_id == q;
        if j < a.len() {
            assert(a[j].handle_id == q);
            assert(in_releases(a, q));
        } else {
            assert(b[j - a.len()].handle_id == q);
            assert(in_releases(b, q));
        }
    }
    if in_releases(a, q) {
        let j = choose|j: int| 0 <= j < a.len() && (#[trigger] a[j]).handle_id == q;
        assert(ab[j].handle_id == q);
        assert(in_releases(ab, q));
    }
    if in_releases(b, q) {
        let j = choose|j: int| 0 <= j < b.len() && (#[trigger] b[j]).handle_id == q;
        assert(ab[a.len() + j].handle_id == q);
        assert(in_releases(ab, q));
    }
}

/// Pushing a release record extends `in_releases` by exactly its handle.
pub proof fn lemma_in_releases_push(rs: Seq<Released>, g: Released, q: u64)
    ensures
        in_releases(rs.push(g), q) == (in_releases(rs, q) || g.handle_id == q),
{
    let rs1 = rs.push(g);
    if in_releases(rs1, q) {
        let j = choose|j: int| 0 <= j < rs1.len() && (#[trigger] rs1[j]).handle_id == q;
        if j < rs.len() {
            assert(rs[j].handle_id == q);
            assert(in_releases(rs, q));
        } else {
            assert(rs1[j] == g);
        }
    }
    if in_releases(rs, q) {
        let j = choose|j: int| 0 <= j < rs.len() && (#[trigger] rs[j]).handle_id == q;
        assert(rs1[j].handle_id == q);
        assert(in_releases(rs1, q));
    }
    if g.handle_id == q {
        assert(rs1[rs.len() as int].handle_id == q);
        assert(in_releases(rs1, q));
    }
}

/// Pushing a copy task extends `in_copies` by exactly its handle.
pub proof fn lemma_in_copies_push(cs: Seq<CopyTask>, g: CopyTask, q: u64)
    ensures
        in_copies(cs.push(g), q) == (in_copies(cs, q) || g.handle_id == q),
{
    let cs1 = cs.push(g);
    if in_copies(cs1, q) {
        let t = choose|t: int| 0 <= t < cs1.len() && (#[trigger] cs1[t]).handle_id == q;
        if t < cs.len() {
            assert(cs[t].handle_id == q);
            assert(in_copies(cs, q));
        } else {
            assert(cs1[t] == g);
        }
    }
    if in_copies(cs, q) {
        let t = choose|t: int| 0 <= t < cs.len() && (#[trigger] cs[t]).handle_id == q;
        assert(cs1[t].handle_id == q);
        assert(in_copies(cs1, q));
    }
    if g.handle_id == q {
        assert(cs1[cs.len() as int].handle_id == q);
        assert(in_copies(cs1, q));
    }
}

/// Whether `v` holds `x`.
fn vec_contains_u64(v: &Vec<u64>, x: u64) -> (r: bool)
    ensures
        r == v@.contains(x),
{
    let n = v.len();
    let mut i: usize = 0;
    while i < n
        invariant
            i <= n,
            n == v@.len(),
            forall|j: int| 0 <= j < i ==> (#[trigger] v@[j]) != x,
        decreases n - i,
    {
        if v[i] == x {
            return true;
        }
        i = i + 1;
    }
    false
}

/// Removes `x` from a duplicate-free vector, keeping everything else.
fn vec_remove_u64(v: &mut Vec<u64>, x: u64)
    requires
        forall|a: int, b: int| 0 <= a < b < old(v)@.len() ==> old(v)@[a] != old(v)@[b],
    ensures
        forall|a: int, b: int| 0 <= a < b < final(v)@.len() ==> final(v)@[a] != final(v)@[b],
        !final(v)@.contains(x),
        forall|y: u64| y != x ==> final(v)@.contains(y) == old(v)@.contains(y),
{
    let n = v.len();
    let mut i: usize = 0;
    while i < n
        invariant
            i <= n,
            n == v@.len(),
            v@ == old(v)@,
            forall|a: int, b: int| 0 <= a < b < old(v)@.len() ==> old(v)@[a] != old(v)@[b],
            forall|j: int| 0 <= j < i ==> (#[trigger] v@[j]) != x,
        decreases n - i,
    {
        if v[i] == x {
            v.remove(i);
            proof {
                let s0 = old(v)@;
                let s1 = v@;
                let fi = i as int;
                assert(s1 =~= s0.subrange(0, fi) + s0.subrange(fi + 1, s0.len() as int));
                assert forall|a: int, b: int| 0 <= a < b < s1.len() implies s1[a] != s1[b] by {
                    let a0: int = if a < fi {
                        a
                    } else {
                        a + 1
                    };
                    let b0: int = if b < fi {
                        b
                    } else {
                        b + 1
                    };
                    assert(s1[a] == s0[a0]);
                    assert(s1[b] == s0[b0]);
                }
                assert forall|y: u64| s1.contains(y) implies y == x || s0.contains(y) by {
                    let j = choose|j: int| 0 <= j < s1.len() && s1[j] == y;
                    let j0: int = if j < fi {
                        j
                    } else {
                        j + 1
                    };
                    assert(s1[j] == s0[j0]);
                }
                assert forall|y: u64| y != x && s0.contains(y) implies s1.contains(y) by {
                    let j0 = choose|j0: int| 0 <= j0 < s0.len() && s0[j0] == y;
                    assert(j0 != fi);
                    let j: int = if j0 < fi {
                        j0
                    } else {
                        j0 - 1
                    };
                    assert(s1[j] == s0[j0]);
                }
                assert forall|y: u64| s1.contains(y) implies y != x by {
                    let j = choose|j: int| 0 <= j < s1.len() && s1[j] == y;
                    let j0: int = if j < fi {
                        j
                    } else {
                        j + 1
                    };
                    assert(s1[j] == s0[j0]);
                    if y == x {
                        assert(s0[j0] == s0[fi]);
                    }
                }
            }
            return ;
        }
        i = i + 1;
    }
    proof {
        if v@.contains(x) {
            let j = choose|j: int| 0 <= j < v@.len() && v@[j] == x;
        }
    }
}

/// What one asset-event drain decided: GPU primitives to free and in-place
/// pixel copies to perform.
pub struct EventOutcome {
    /// Resources of dropped textures, one record per dropped handle.
    pub releases: Vec<Released>,
    /// Pixel copies into still-compatible resident textures.
    pub copies: Vec<CopyTask>,
}

/// Everything one frame's texture phase decided: GPU primitives to free,
/// pixel copies into still-resident compatible textures, textures to
/// realise, and resident textures whose bind groups must be re-created.
pub struct ReconcileOutcome {
    /// Resources of dropped textures, one record per dropped handle.
    pub releases: Vec<Released>,
    /// Pixel copies into still-resident compatible textures.
    pub copies: Vec<CopyTask>,
    /// Textures to realise from their loaded assets.
    pub creates: Vec<CreateTask>,
    /// Resident referenced textures whose bind groups are re-created.
    pub rebinds: Vec<u64>,
}

/// The retained state of the render-graph node.
pub struct MegaUiNode {
    /// The pass's attachments and input-slot bookkeeping.
    pub pass_frame: PassFrame,
    /// Handle id of the font-atlas texture; resident whenever loaded, and
    /// never garbage-collected.
    pub font_texture: u64,
    /// The textures currently realised on the GPU, by handle id.
    pub texture_resources: TextureStore,
    /// Last frame's shared vertex buffer, if one was created.
    pub vertex_buffer: Option<u64>,
    /// Last frame's shared index buffer, if one was created.
    pub index_buffer: Option<u64>,
    /// The transform bind group, once built.
    pub transform_bind_group: Option<u64>,
}

/// Everything but the texture store kept as it was.
pub open spec fn only_store_changed(pre: MegaUiNode, post: MegaUiNode) -> bool {
    &&& post.pass_frame == pre.pass_frame
    &&& post.font_texture == pre.font_texture
    &&& post.vertex_buffer == pre.vertex_buffer
    &&& post.index_buffer == pre.index_buffer
    &&& post.transform_bind_group == pre.transform_bind_group
}

impl MegaUiNode {
    /// The store's invariant carried by every state.
    pub open spec fn wf(self) -> bool {
        self.texture_resources.wf()
    }

    /// A fresh node with no realised textures and no buffers, its pass
    /// attachments built for the given MSAA sample count: under
    /// multisampling (more than one sample) the pass binds both a color
    /// attachment and a resolve target; otherwise only the color
    /// attachment.
    pub fn new(msaa_samples: u32, font_texture: u64) -> (r: MegaUiNode)
        ensures
            r.wf(),
            r.font_texture == font_texture,
            r.texture_resources@ == Map::<u64, TextureResource>::empty(),
            r.vertex_buffer is None,
            r.index_buffer is None,
            r.transform_bind_group is None,
            r.pass_frame.wf(),
            r.pass_frame.sample_count == msaa_samples,
            r.pass_frame.color_op == crate::attachments::LoadOp::Load,
            r.pass_frame.depth_op == crate::attachments::LoadOp::Clear,
            msaa_samples > 1 <==> r.pass_frame.color_resolve_target is Some,
            crate::attachments::is_input(r.pass_frame.color_attachment, "color_attachment"@),
            r.pass_frame.color_resolve_target matches Some(t)
                ==> crate::attachments::is_input(t, "color_resolve_target"@),
            crate::attachments::is_input(r.pass_frame.depth_attachment, "depth"@),
            r.pass_frame.inputs@.len() == if msaa_samples > 1 {
                3int
            } else {
                2int
            },
            r.pass_frame.inputs@[0]@ == "color_attachment"@,
            msaa_samples > 1 ==> r.pass_frame.inputs@[1]@ == "color_resolve_target"@,
            r.pass_frame.inputs@[r.pass_frame.inputs@.len() - 1]@ == "depth"@,
            r.pass_frame.color_attachment_input_index == Some(0usize),
            r.pass_frame.color_resolve_target_index == if msaa_samples > 1 {
                Some(1usize)
            } else {
                None::<usize>
            },
            r.pass_frame.depth_input_index == Some(
                if msaa_samples > 1 {
                    2usize
                } else {
                    1usize
                },
            ),
    {
        MegaUiNode {
            pass_frame: PassFrame::new(msaa_samples),
            font_texture,
            texture_resources: VecMap::new(),
            vertex_buffer: None,
            index_buffer: None,
            transform_bind_group: None,
        }
    }

    /// Drops the resource realised for `handle_id`, handing back its GPU
    /// primitives to free: the ids come back exactly when the handle was
    /// resident, so freeing happens exactly once.
    pub fn remove_texture(&mut self, handle_id: u64) -> (r: Option<Released>)
        requires
            old(self).wf(),
        ensures
            final(self).wf(),
            only_store_changed(*old(self), *final(self)),
            final(self).texture_resources@ == old(self).texture_resources@.remove(handle_id),
            r is Some <==> old(self).texture_resources@.contains_key(handle_id),
            r matches Some(g) ==> g.handle_id == handle_id && releases_from(
                g,
                old(self).texture_resources@,
            ),
    {
        match self.texture_resources.remove(handle_id) {
            Some(res) => Some(
                Released {
                    handle_id,
                    texture_id: res.texture_id,
                    sampler_id: res.sampler_id,
                },
            ),
            None => None,
        }
    }

    /// Reuses the transform bind group built on an earlier frame, or adopts
    /// the freshly built `fresh_id`; either way the GPU-side group is to be
    /// re-created this frame, since some backends drop stale bind groups.
    pub fn ensure_transform_bind_group(&mut self, fresh_id: u64) -> (id: u64)
        ensures
            final(self).transform_bind_group == Some(id),
            id == match old(self).transform_bind_group {
                Some(x) => x,
                None => fresh_id,
            },
            final(self).font_texture == old(self).font_texture,
            final(self).texture_resources == old(self).texture_resources,
            final(self).vertex_buffer == old(self).vertex_buffer,
            final(self).index_buffer == old(self).index_buffer,
            final(self).pass_frame == old(self).pass_frame,
    {
        match self.transform_bind_group {
            Some(x) => x,
            None => {
                self.transform_bind_group = Some(fresh_id);
                fresh_id
            }
        }
    }

    /// Adopts this frame's freshly created vertex and index buffers and
    /// hands back last frame's, which the shell must free: buffers are
    /// replaced whole every frame.
    pub fn replace_buffers(&mut self, vertex_buffer_id: u64, index_buffer_id: u64) -> (freed: (
        Option<u64>,
        Option<u64>,
    ))
        ensures
            final(self).vertex_buffer == Some(vertex_buffer_id),
            final(self).index_buffer == Some(index_buffer_id),
            freed == (old(self).vertex_buffer, old(self).index_buffer),
            final(self).font_texture == old(self).font_texture,
            final(self).texture_resources == old(self).texture_resources,
            final(self).transform_bind_group == old(self).transform_bind_group,
            final(self).pass_frame == old(self).pass_frame,
    {
        let freed = (self.vertex_buffer, self.index_buffer);
        self.vertex_buffer = Some(vertex_buffer_id);
        self.index_buffer = Some(index_buffer_id);
        freed
    }

    /// Plans this frame's texture realisation: for the font atlas and every
    /// handle in the user registry, a resident texture has its bind group
    /// re-created (`rebinds`; some backends drop stale bind groups each
    /// frame), a non-resident one whose asset is loaded is to be realised
    /// (`creates`, with the asset's descriptor), and a non-resident one
    /// still loading is skipped, to be retried next frame.
    pub fn plan_texture_creations(
        &self,
        registry: &TextureRegistry,
        assets: &AssetCatalog,
    ) -> (plan: (Vec<CreateTask>, Vec<u64>))
        requires
            self.wf(),
            registry.wf(),
            assets.wf(),
        ensures
            forall|a: int, b: int|
                0 <= a < b < plan.0@.len() ==> (#[trigger] plan.0@[a]).handle_id != (
                #[trigger] plan.0@[b]).handle_id,
            forall|t: int|
                0 <= t < plan.0@.len() ==> {
                    let c = #[trigger] plan.0@[t];
                    &&& c.handle_id == self.font_texture || is_handle_of(registry@, c.handle_id)
                    &&& !self.texture_resources@.contains_key(c.handle_id)
                    &&& assets@.contains_key(c.handle_id)
                    &&& assets@[c.handle_id] == c.descriptor
                },
            forall|h: u64|
                (h == self.font_texture || is_handle_of(registry@, h))
                    && !self.texture_resources@.contains_key(h) && #[trigger] assets@.contains_key(
                    h,
                ) ==> exists|t: int|
                    0 <= t < plan.0@.len() && (#[trigger] plan.0@[t]).handle_id == h,
            forall|a: int, b: int| 0 <= a < b < plan.1@.len() ==> plan.1@[a] != plan.1@[b],
            forall|t: int|
                0 <= t < plan.1@.len() ==> ((#[trigger] plan.1@[t]) == self.font_texture
                    || is_handle_of(registry@, plan.1@[t]))
                    && self.texture_resources@.contains_key(plan.1@[t]),
            forall|h: u64|
                (h == self.font_texture || is_handle_of(registry@, h))
                    && #[trigger] self.texture_resources@.contains_key(h) ==> plan.1@.contains(h),
    {
        let mut candidates = registry.handle_ids();
        let ghost cand0 = candidates@;
        candidates.push(self.font_texture);
        proof {
            assert(candidates@ == cand0.push(self.font_texture));
            assert(candidates@.last() == self.font_texture);
            assert(candidates@.contains(self.font_texture));
            assert forall|h2: u64| is_handle_of(registry@, h2) implies candidates@.contains(
                h2,
            ) by {
                let k = choose|k: u32|
                    #[trigger] registry@.contains_key(k) && registry@[k].id == h2;
                assert(cand0.contains(registry@[k].id));
            }
            assert forall|t: int|
                0 <= t < candidates@.len() implies ((#[trigger] candidates@[t])
                == self.font_texture || is_handle_of(registry@, candidates@[t])) by {
                if t < cand0.len() {
                    assert(candidates@[t] == cand0[t]);
                    assert(is_handle_of(registry@, cand0[t]));
                }
            }
        }
        let mut seen: Vec<u64> = Vec::new();
        let mut creates: Vec<CreateTask> = Vec::new();
        let mut rebinds: Vec<u64> = Vec::new();
        let n = candidates.len();
        let mut i: usize = 0;
        while i < n
            invariant
                i <= n,
                n == candidates@.len(),
                self.wf(),
                registry.wf(),
                assets.wf(),
                candidates@.contains(self.font_texture),
                forall|t: int|
                    0 <= t < n ==> ((#[trigger] candidates@[t]) == self.font_texture
                        || is_handle_of(registry@, candidates@[t])),
                forall|h: u64| is_handle_of(registry@, h) ==> candidates@.contains(h),
                forall|a: int, b: int| 0 <= a < b < seen@.len() ==> seen@[a] != seen@[b],
                forall|l: int| 0 <= l < i ==> seen@.contains(#[trigger] candidates@[l]),
                forall|t: int|
                    0 <= t < seen@.len() ==> candidates@.contains(#[trigger] seen@[t]),
                forall|s: u64|
                    #[trigger] seen@.contains(s) ==> {
                        &&& (self.texture_resources@.contains_key(s) ==> rebinds@.contains(s))
                        &&& (!self.texture_resources@.contains_key(s)
                            && assets@.contains_key(s) ==> exists|t: int|
                            0 <= t < creates@.len() && (#[trigger] creates@[t]).handle_id == s)
                    },
                forall|t: int| 0 <= t < rebinds@.len() ==> seen@.contains(#[trigger] rebinds@[t]),
                forall|a: int, b: int| 0 <= a < b < rebinds@.len() ==> rebinds@[a] != rebinds@[b],
                forall|t: int|
                    0 <= t < rebinds@.len() ==> ((#[trigger] rebinds@[t]) == self.font_texture
                        || is_handle_of(registry@, rebinds@[t]))
                        && self.texture_resources@.contains_key(rebinds@[t]),
                forall|t: int|
                    0 <= t < creates@.len() ==> seen@.contains(
                        (#[trigger] creates@[t]).handle_id,
                    ),
                forall|a: int, b: int|
                    0 <= a < b < creates@.len() ==> (#[trigger] creates@[a]).handle_id != (
                    #[trigger] creates@[b]).handle_id,
                forall|t: int|
                    0 <= t < creates@.len() ==> {
                        let c = #[trigger] creates@[t];
                        &&& c.handle_id == self.font_texture || is_handle_of(
                            registry@,
                            c.handle_id,
                        )
                        &&& !self.texture_resources@.contains_key(c.handle_id)
                        &&& assets@.contains_key(c.handle_id)
                        &&& assets@[c.handle_id] == c.descriptor
                    },
            decreases n - i,
        {
            let h = candidates[i];
            if !vec_contains_u64(&seen, h) {
                let ghost seen0 = seen@;
                seen.push(h);
                proof {
                    assert(seen@ == seen0.push(h));
                    assert forall|a: int, b: int|
                        0 <= a < b < seen@.len() implies seen@[a] != seen@[b] by {
                        if b < seen0.len() {
                            assert(seen@[a] == seen0[a] && seen@[b] == seen0[b]);
                        } else {
                            assert(seen@[b] == h && seen@[a] == seen0[a]);
                            assert(seen0.contains(seen0[a]));
                        }
                    }
                    assert forall|t: int|
                        0 <= t < seen@.len() implies candidates@.contains(
                        #[trigger] seen@[t]) by {
                        if t < seen0.len() {
                            assert(seen0.contains(seen0[t]));
                        } else {
                            assert(candidates@[i as int] == h);
                        }
                    }
                }
                if self.texture_resources.contains_key(h) {
                    let ghost rb0 = rebinds@;
                    rebinds.push(h);
                    proof {
                        assert(rebinds@ == rb0.push(h));
                        assert forall|a: int, b: int|
                            0 <= a < b < rebinds@.len() implies rebinds@[a] != rebinds@[b] by {
                            if b < rb0.len() {
                                assert(rebinds@[a] == rb0[a] && rebinds@[b] == rb0[b]);
                            } else {
                                assert(rebinds@[b] == h && rebinds@[a] == rb0[a]);
                                assert(seen0.contains(rb0[a]));
                            }
                        }
                        assert forall|s: u64|
                            #[trigger] seen@.contains(s) implies {
                            &&& (self.texture_resources@.contains_key(s) ==> rebinds@.contains(s))
                            &&& (!self.texture_resources@.contains_key(s)
                                && assets@.contains_key(s) ==> exists|t: int|
                                0 <= t < creates@.len() && (#[trigger] creates@[t]).handle_id
                                    == s)
                        } by {
                            let t = choose|t: int| 0 <= t < seen@.len() && seen@[t] == s;
                            if t < seen0.len() {
                                assert(seen0.contains(s));
                                if self.texture_resources@.contains_key(s) {
                                    let u = choose|u: int|
                                        0 <= u < rb0.len() && rb0[u] == s;
                                    assert(rebinds@[u] == s);
                                }
                            } else {
                                assert(s == h);
                                assert(rebinds@.last() == h);
                            }
                        }
                    }
                } else {
                    match assets.get(h) {
                        Some(descriptor) => {
                            let ghost cr0 = creates@;
                            creates.push(CreateTask { handle_id: h, descriptor });
                            proof {
                                assert(creates@ == cr0.push(
                                    CreateTask { handle_id: h, descriptor },
                                ));
                                assert forall|a: int, b: int|
                                    0 <= a < b < creates@.len() implies (
                                #[trigger] creates@[a]).handle_id != (
                                #[trigger] creates@[b]).handle_id by {
                                    if b < cr0.len() {
                                        assert(creates@[a] == cr0[a] && creates@[b] == cr0[b]);
                                    } else {
                                        assert(creates@[b].handle_id == h);
                                        assert(creates@[a] == cr0[a]);
                                        assert(seen0.contains(cr0[a].handle_id));
                                    }
                                }
                                assert forall|s: u64|
                                    #[trigger] seen@.contains(s) implies {
                                    &&& (self.texture_resources@.contains_key(s)
                                        ==> rebinds@.contains(s))
                                    &&& (!self.texture_resources@.contains_key(s)
                                        && assets@.contains_key(s) ==> exists|t: int|
                                        0 <= t < creates@.len() && (
                                        #[trigger] creates@[t]).handle_id == s)
                                } by {
                                    let t = choose|t: int|
                                        0 <= t < seen@.len() && seen@[t] == s;
                                    if t < seen0.len() {
                                        assert(seen0.contains(s));
                                        if !self.texture_resources@.contains_key(s)
                                            && assets@.contains_key(s) {
                                            let u = choose|u: int|
                                                0 <= u < cr0.len() && (
                                                #[trigger] cr0[u]).handle_id == s;
                                            assert(creates@[u].handle_id == s);
                                        }
                                    } else {
                                        assert(s == h);
                                        assert(creates@.last().handle_id == h);
                                    }
                                }
                            }
                        }
                        None => {
                            proof {
                                assert forall|s: u64|
                                    #[trigger] seen@.contains(s) implies {
                                    &&& (self.texture_resources@.contains_key(s)
                                        ==> rebinds@.contains(s))
                                    &&& (!self.texture_resources@.contains_key(s)
                                        && assets@.contains_key(s) ==> exists|t: int|
                                        0 <= t < creates@.len() && (
                                        #[trigger] creates@[t]).handle_id == s)
                                } by {
                                    let t = choose|t: int|
                                        0 <= t < seen@.len() && seen@[t] == s;
                                    if t < seen0.len() {
                                        assert(seen0.contains(s));
                                    } else {
                                        assert(s == h);
                                    }
                                }
                            }
                        }
                    }
                }
            }
            i = i + 1;
        }
        proof {
            assert forall|h: u64|
                (h == self.font_texture || is_handle_of(registry@, h))
                    && !self.texture_resources@.contains_key(h)
                    && #[trigger] assets@.contains_key(h) implies exists|t: int|
                0 <= t < creates@.len() && (#[trigger] creates@[t]).handle_id == h by {
                assert(candidates@.contains(h));
                let l = choose|l: int| 0 <= l < candidates@.len() && candidates@[l] == h;
                assert(seen@.contains(candidates@[l]));
            }
            assert forall|h: u64|
                (h == self.font_texture || is_handle_of(registry@, h))
                    && #[trigger] self.texture_resources@.contains_key(h) implies rebinds@.contains(
                h,
            ) by {
                assert(candidates@.contains(h));
                let l = choose|l: int| 0 <= l < candidates@.len() && candidates@[l] == h;
                assert(seen@.contains(candidates@[l]));
            }
        }
        (creates, rebinds)
    }

    /// Records that the shell realised a texture: stores the descriptor it
    /// was created from together with the GPU ids the shell reports.
    pub fn note_texture_created(&mut self, handle_id: u64, resource: TextureResource)
        requires
            old(self).wf(),
        ensures
            final(self).wf(),
            only_store_changed(*old(self), *final(self)),
            final(self).texture_resources@ == old(self).texture_resources@.insert(
                handle_id,
                resource,
            ),
    {
        self.texture_resources.insert(handle_id, resource);
    }

    /// Drains one frame's asset events for the texture asset type.
    ///
    /// A `Removed` event drops the handle's realised resource (freeing its
    /// GPU primitives exactly once) and purges the user registry of every
    /// entry pointing at it.  A `Modified` event of a resident, loaded
    /// asset queues it: after the drain, a queued asset whose descriptor
    /// still matches the realised one becomes an in-place pixel copy, and
    /// one whose descriptor changed has its resource dropped so the next
    /// creation pass realises it afresh.  A modification followed by a
    /// removal in the same drain is ignored.  Events for handles with no
    /// realised resource are skipped.
    pub fn process_asset_events(
        &mut self,
        user_registry: &mut TextureRegistry,
        events: &Vec<AssetEvent>,
        assets: &AssetCatalog,
    ) -> (out: EventOutcome)
        requires
            old(self).wf(),
            old(user_registry).wf(),
            assets.wf(),
        ensures
            final(self).wf(),
            final(user_registry).wf(),
            only_store_changed(*old(self), *final(self)),
            forall|h: u64|
                #[trigger] final(self).texture_resources@.contains_key(h) ==> old(self).texture_resources@.contains_key(h) && final(self).texture_resources@[h] == old(self).texture_resources@[h],
            forall|h: u64| removed_in(events@, h) ==> !final(self).texture_resources@.contains_key(h),
            releases_distinct(out.releases@),
            forall|j: int|
                0 <= j < out.releases@.len() ==> releases_from(
                    #[trigger] out.releases@[j],
                    old(self).texture_resources@,
                ) && !final(self).texture_resources@.contains_key(out.releases@[j].handle_id),
            forall|h: u64|
                old(self).texture_resources@.contains_key(h) && !final(self).texture_resources@.contains_key(h) ==> in_releases(out.releases@, h),
            forall|k: u32|
                #[trigger] final(user_registry)@.contains_key(k) ==> old(user_registry)@.contains_key(k) && final(user_registry)@[k] == old(user_registry)@[k],
            forall|h: u64|
                removed_in(events@, h) && old(self).texture_resources@.contains_key(h)
                    ==> !is_handle_of(final(user_registry)@, h),
            forall|t: int|
                0 <= t < out.copies@.len() ==> {
                    let c = #[trigger] out.copies@[t];
                    &&& final(self).texture_resources@.contains_key(c.handle_id)
                    &&& c.texture_id == final(self).texture_resources@[c.handle_id].texture_id
                    &&& c.descriptor == final(self).texture_resources@[c.handle_id].descriptor
                    &&& assets@.contains_key(c.handle_id)
                    &&& assets@[c.handle_id] == c.descriptor
                },
            forall|h: u64|
                old(self).texture_resources@.contains_key(h) && #[trigger] undisturbed(
                    events@,
                    assets@,
                    old(self).texture_resources@,
                    h,
                ) ==> final(self).texture_resources@.contains_key(h),
            forall|h: u64|
                #[trigger] modified_in(events@, h) && !removed_in(events@, h) && old(self).texture_resources@.contains_key(h) && assets@.contains_key(h) && assets@[h]
                    == old(self).texture_resources@[h].descriptor ==> in_copies(out.copies@, h),
            forall|h: u64|
                #[trigger] modified_in(events@, h) && !removed_in(events@, h) && old(self).texture_resources@.contains_key(h) && assets@.contains_key(h) && assets@[h]
                    != old(self).texture_resources@[h].descriptor ==> !final(self).texture_resources@.contains_key(h),
            forall|k: u32|
                #[trigger] old(user_registry)@.contains_key(k) && !removed_in(
                    events@,
                    old(user_registry)@[k].id,
                ) ==> final(user_registry)@.contains_key(k) && final(user_registry)@[k] == old(user_registry)@[k],
    {
        let ghost st_base = self.texture_resources@;
        let ghost reg_base = user_registry@;
        let mut releases: Vec<Released> = Vec::new();
        let mut changed: Vec<u64> = Vec::new();
        let n = events.len();
        let mut i: usize = 0;
        while i < n
            invariant
                i <= n,
                n == events@.len(),
                self.wf(),
                user_registry.wf(),
                assets.wf(),
                only_store_changed(*old(self), *self),
                forall|q: u64|
                    self.texture_resources@.contains_key(q) <==> (
                    st_base.contains_key(q) && !in_releases(releases@, q)),
                forall|q: u64|
                    #[trigger] self.texture_resources@.contains_key(q)
                        ==> self.texture_resources@[q] == st_base[q],
                releases_distinct(releases@),
                forall|j: int|
                    0 <= j < releases@.len() ==> releases_from(
                        #[trigger] releases@[j],
                        st_base,
                    ),
                forall|l: int|
                    0 <= l < i ==> ((#[trigger] events@[l]) matches AssetEvent::Removed {
                        handle_id,
                    } ==> !self.texture_resources@.contains_key(handle_id)),
                forall|k: u32|
                    #[trigger] user_registry@.contains_key(k) ==> reg_base.contains_key(k) && user_registry@[k] == reg_base[k],
                forall|l: int|
                    0 <= l < i ==> ((#[trigger] events@[l]) matches AssetEvent::Removed {
                        handle_id,
                    } ==> (st_base.contains_key(handle_id)
                        ==> !is_handle_of(user_registry@, handle_id))),
                forall|q: u64| in_releases(releases@, q) ==> !is_handle_of(user_registry@, q),
                forall|t: int|
                    0 <= t < releases@.len() ==> removed_in(
                        events@.take(i as int),
                        (#[trigger] releases@[t]).handle_id,
                    ),
                forall|c: u64|
                    #[trigger] changed@.contains(c) ==> modified_in(events@.take(i as int), c),
                forall|h: u64|
                    st_base.contains_key(h) && #[trigger] modified_in(events@.take(i as int), h)
                        && !removed_in(events@.take(i as int), h) && assets@.contains_key(h)
                        ==> changed@.contains(h),
                forall|k: u32|
                    #[trigger] reg_base.contains_key(k) && !removed_in(
                        events@.take(i as int),
                        reg_base[k].id,
                    ) ==> user_registry@.contains_key(k) && user_registry@[k] == reg_base[k],
                forall|a: int, b: int| 0 <= a < b < changed@.len() ==> changed@[a] != changed@[b],
                forall|c: u64|
                    #[trigger] changed@.contains(c) ==> self.texture_resources@.contains_key(c)
                        && assets@.contains_key(c),
            decreases n - i,
        {
            let ghost rs_pre = releases@;
            let ghost ch_pre = changed@;
            let ghost reg_pre = user_registry@;
            let ghost st_pre = self.texture_resources@;
            let event = events[i];
            let handle_id = match event {
                AssetEvent::Created { handle_id } => handle_id,
                AssetEvent::Modified { handle_id } => handle_id,
                AssetEvent::Removed { handle_id } => handle_id,
            };
            if self.texture_resources.contains_key(handle_id) {
                match event {
                    AssetEvent::Created { .. } => {
                        // Creation is handled by the texture-creation pass,
                        // which realises every referenced loaded asset.
                    }
                    AssetEvent::Modified { .. } => {
                        if assets.contains_key(handle_id) {
                            if !vec_contains_u64(&changed, handle_id) {
                                let ghost c0 = changed@;
                                changed.push(handle_id);
                                proof {
                                    assert forall|a: int, b: int|
                                        0 <= a < b < changed@.len() implies changed@[a]
                                        != changed@[b] by {
                                        if b < c0.len() {
                                            assert(changed@[a] == c0[a] && changed@[b] == c0[b]);
                                        } else {
                                            assert(changed@[b] == handle_id);
                                            assert(changed@[a] == c0[a]);
                                            assert(c0.contains(c0[a]));
                                        }
                                    }
                                    assert forall|c: u64|
                                        #[trigger] changed@.contains(c) implies
                                        self.texture_resources@.contains_key(c)
                                            && assets@.contains_key(c) by {
                                        let j = choose|j: int|
                                            0 <= j < changed@.len() && changed@[j] == c;
                                        if j < c0.len() {
                                            assert(c0.contains(c0[j]));
                                        } else {
                                            assert(c == handle_id);
                                        }
                                    }
                                }
                            }
                        }
                    }
                    AssetEvent::Removed { .. } => {
                        let ghost reg0 = user_registry@;
                        user_registry.remove_handle(handle_id);
                        proof {
                            assert forall|l: int|
                                0 <= l < i implies ((#[trigger] events@[l])
                                matches AssetEvent::Removed { handle_id: h2 } ==> (st_base.contains_key(h2) ==> !is_handle_of(
                                user_registry@,
                                h2,
                            ))) by {
                                match events@[l] {
                                    AssetEvent::Removed { handle_id: h2 } => {
                                        if st_base.contains_key(h2)
                                            && is_handle_of(user_registry@, h2) {
                                            let k = choose|k: u32|
                                                #[trigger] user_registry@.contains_key(k)
                                                    && user_registry@[k].id == h2;
                                            assert(reg0.contains_key(k) && reg0[k]
                                                == user_registry@[k]);
                                            assert(is_handle_of(reg0, h2));
                                        }
                                    }
                                    _ => {}
                                }
                            }
                            assert(!is_handle_of(user_registry@, handle_id));
                        }
                        let ghost rs0 = releases@;
                        let ghost c1 = changed@;
                        let ghost st0 = self.texture_resources@;
                        match self.remove_texture(handle_id) {
                            Some(g) => {
                                releases.push(g);
                                proof {
                                    assert(releases@ == rs0.push(g));
                                    assert forall|q: u64|
                                        self.texture_resources@.contains_key(q) <==> (
                                    st_base.contains_key(q) && !in_releases(
                                        releases@,
                                        q,
                                    )) by {
                                        lemma_in_releases_push(rs0, g, q);
                                        assert(st0.contains_key(q) == (st_base.contains_key(q)
                                            && !in_releases(rs0, q)));
                                    }
                                    assert forall|q: u64|
                                        #[trigger] self.texture_resources@.contains_key(
                                        q) implies self.texture_resources@[q] == st_base[q] by {
                                        assert(st0.contains_key(q));
                                    }
                                    assert forall|t: int|
                                        0 <= t < releases@.len() implies releases_from(
                                        #[trigger] releases@[t],
                                        st_base,
                                    ) by {
                                        if t < rs0.len() {
                                            assert(releases@[t] == rs0[t]);
                                        } else {
                                            assert(releases@[t] == g);
                                            assert(st0.contains_key(handle_id));
                                            assert(releases_from(g, st0));
                                        }
                                    }
                                    assert forall|a: int, b: int|
                                        0 <= a < b < releases@.len() implies (
                                    #[trigger] releases@[a]).handle_id != (
                                    #[trigger] releases@[b]).handle_id by {
                                        if b == rs0.len() {
                                            assert(rs0[a].handle_id == releases@[a].handle_id);
                                            if releases@[a].handle_id == handle_id {
                                                assert(in_releases(rs0, handle_id));
                                                assert(st0.contains_key(handle_id));
                                            }
                                        }
                                    }
                                    assert forall|q: u64|
                                        in_releases(releases@, q) implies !is_handle_of(
                                        user_registry@,
                                        q,
                                    ) by {
                                        lemma_in_releases_push(rs0, g, q);
                                        if in_releases(rs0, q) && is_handle_of(
                                            user_registry@,
                                            q,
                                        ) {
                                            let k = choose|k: u32|
                                                #[trigger] user_registry@.contains_key(k)
                                                    && user_registry@[k].id == q;
                                            assert(reg0.contains_key(k) && reg0[k]
                                                == user_registry@[k]);
                                            assert(is_handle_of(reg0, q));
                                        }
                                    }
                                }
                            }
                            None => {
                                proof {
                                    assert(st0.contains_key(handle_id));
                                    assert(false);
                                }
                            }
                        }
                        vec_remove_u64(&mut changed, handle_id);
                        proof {
                            assert forall|c: u64|
                                #[trigger] changed@.contains(c) implies
                                self.texture_resources@.contains_key(c) && assets@.contains_key(
                                c) by {
                                assert(c1.contains(c));
                            }
                        }
                    }
                }
            }
            proof {
                let ii = i as int;
                assert forall|t: int|
                    0 <= t < releases@.len() implies removed_in(
                    events@.take(ii + 1),
                    (#[trigger] releases@[t]).handle_id,
                ) by {
                    lemma_event_prefix_step(events@, ii, releases@[t].handle_id);
                    if t < rs_pre.len() {
                        assert(releases@[t] == rs_pre[t]);
                    } else {
                        assert(releases@[t].handle_id == handle_id);
                        assert(events@[ii] == (AssetEvent::Removed { handle_id }));
                    }
                }
                assert forall|c: u64| #[trigger] changed@.contains(c) implies modified_in(
                    events@.take(ii + 1),
                    c,
                ) by {
                    lemma_event_prefix_step(events@, ii, c);
                    if !ch_pre.contains(c) {
                        assert(events@[ii] == (AssetEvent::Modified { handle_id }));
                        assert(c == handle_id);
                    }
                }
                assert forall|h: u64|
                    st_base.contains_key(h) && #[trigger] modified_in(events@.take(ii + 1), h)
                        && !removed_in(events@.take(ii + 1), h) && assets@.contains_key(
                    h) implies changed@.contains(h) by {
                    lemma_event_prefix_step(events@, ii, h);
                    if modified_in(events@.take(ii), h) {
                        assert(ch_pre.contains(h));
                        if !changed@.contains(h) {
                            // only a removal for h itself takes it out of the
                            // queue, and that would contradict the premise
                            assert(h == handle_id);
                            assert(events@[ii] == (AssetEvent::Removed { handle_id }));
                        }
                    } else {
                        assert(events@[ii] == (AssetEvent::Modified { handle_id }));
                        assert(h == handle_id);
                        if in_releases(rs_pre, h) {
                            let t = choose|t: int|
                                0 <= t < rs_pre.len() && (#[trigger] rs_pre[t]).handle_id == h;
                            assert(removed_in(events@.take(ii), h));
                        }
                        assert(st_pre.contains_key(h));
                    }
                }
                assert forall|k: u32|
                    #[trigger] reg_base.contains_key(k) && !removed_in(
                    events@.take(ii + 1),
                    reg_base[k].id,
                ) implies user_registry@.contains_key(k) && user_registry@[k] == reg_base[k] by {
                    lemma_event_prefix_step(events@, ii, reg_base[k].id);
                    assert(reg_pre.contains_key(k) && reg_pre[k] == reg_base[k]);
                    if !user_registry@.contains_key(k) || user_registry@[k] != reg_base[k] {
                        assert(events@[ii] == (AssetEvent::Removed { handle_id }));
                        assert(reg_base[k].id == handle_id);
                    }
                }
            }
            i = i + 1;
        }

        let ghost mid_store = self.texture_resources@;
        let ghost mid_reg = user_registry@;
        let ghost rs_mid_len = releases@.len() as int;

        let mut copies: Vec<CopyTask> = Vec::new();
        let m = changed.len();
        let mut j: usize = 0;
        proof {
            assert(events@.take(n as int) =~= events@);
            assert forall|l: int|
                0 <= l < changed@.len() implies self.texture_resources@.contains_key(
                #[trigger] changed@[l]) && assets@.contains_key(changed@[l]) && modified_in(
                events@,
                changed@[l],
            ) && st_base.contains_key(changed@[l]) by {
                assert(changed@.contains(changed@[l]));
            }
        }
        while j < m
            invariant
                j <= m,
                m == changed@.len(),
                self.wf(),
                user_registry.wf(),
                assets.wf(),
                user_registry@ == mid_reg,
                only_store_changed(*old(self), *self),
                forall|q: u64|
                    self.texture_resources@.contains_key(q) <==> (
                    st_base.contains_key(q) && !in_releases(releases@, q)),
                forall|q: u64|
                    #[trigger] self.texture_resources@.contains_key(q)
                        ==> self.texture_resources@[q] == st_base[q],
                forall|q: u64|
                    #[trigger] self.texture_resources@.contains_key(q) ==> mid_store.contains_key(
                        q,
                    ),
                releases_distinct(releases@),
                forall|t: int|
                    0 <= t < releases@.len() ==> releases_from(
                        #[trigger] releases@[t],
                        st_base,
                    ),
                forall|a: int, b: int| 0 <= a < b < changed@.len() ==> changed@[a] != changed@[b],
                forall|l: int|
                    j <= l < changed@.len() ==> self.texture_resources@.contains_key(
                        #[trigger] changed@[l],
                    ) && assets@.contains_key(changed@[l]),
                forall|l: int|
                    0 <= l < changed@.len() ==> modified_in(events@, #[trigger] changed@[l])
                        && assets@.contains_key(changed@[l]) && st_base.contains_key(
                        changed@[l],
                    ),
                0 <= rs_mid_len <= releases@.len(),
                forall|t: int|
                    0 <= t < rs_mid_len ==> removed_in(
                        events@,
                        (#[trigger] releases@[t]).handle_id,
                    ),
                forall|t: int|
                    rs_mid_len <= t < releases@.len() ==> {
                        let hh = (#[trigger] releases@[t]).handle_id;
                        &&& modified_in(events@, hh)
                        &&& assets@.contains_key(hh)
                        &&& st_base.contains_key(hh)
                        &&& assets@[hh] != st_base[hh].descriptor
                    },
                forall|l: int|
                    0 <= l < j ==> {
                        let ch = #[trigger] changed@[l];
                        &&& (st_base.contains_key(ch) && assets@[ch] == st_base[ch].descriptor
                            ==> in_copies(copies@, ch))
                        &&& (st_base.contains_key(ch) && assets@[ch] != st_base[ch].descriptor
                            ==> !self.texture_resources@.contains_key(ch))
                    },
                forall|t: int|
                    0 <= t < copies@.len() ==> {
                        let c = #[trigger] copies@[t];
                        &&& self.texture_resources@.contains_key(c.handle_id)
                        &&& c.texture_id == self.texture_resources@[c.handle_id].texture_id
                        &&& c.descriptor == self.texture_resources@[c.handle_id].descriptor
                        &&& assets@.contains_key(c.handle_id)
                        &&& assets@[c.handle_id] == c.descriptor
                        &&& exists|l: int| 0 <= l < j && changed@[l] == c.handle_id
                    },
            decreases m - j,
        {
            let c = changed[j];
            let res = match self.texture_resources.get(c) {
                Some(res) => res,
                None => {
                    proof {
                        assert(false);
                    }
                    return EventOutcome { releases, copies };
                }
            };
            let desc = match assets.get(c) {
                Some(d) => d,
                None => {
                    proof {
                        assert(false);
                    }
                    return EventOutcome { releases, copies };
                }
            };
            if desc != res.descriptor {
                // The asset is no longer compatible with the realised
                // texture: drop the resource; the creation pass realises it
                // afresh from the new descriptor.
                let ghost rs0 = releases@;
                match self.remove_texture(c) {
                    Some(g) => {
                        releases.push(g);
                    }
                    None => {}
                }
                proof {
                    assert forall|q: u64|
                        self.texture_resources@.contains_key(q) <==> (
                    st_base.contains_key(q) && !in_releases(
                        releases@,
                        q,
                    )) by {
                        lemma_in_releases_push(rs0, releases@.last(), q);
                    }
                    assert forall|a: int, b: int|
                        0 <= a < b < releases@.len() implies (
                    #[trigger] releases@[a]).handle_id != (#[trigger] releases@[b]).handle_id by {
                        if b == rs0.len() {
                            assert(rs0[a].handle_id == releases@[a].handle_id);
                            if releases@[a].handle_id == c {
                                assert(in_releases(rs0, c));
                            }
                        }
                    }
                    assert forall|t: int|
                        0 <= t < copies@.len() implies {
                        let cp = #[trigger] copies@[t];
                        self.texture_resources@.contains_key(cp.handle_id)
                    } by {
                        let l = choose|l: int| 0 <= l < j && changed@[l] == copies@[t].handle_id;
                        assert(changed@[l] != changed@[j as int]);
                    }
                    assert(changed@.contains(changed@[j as int]));
                    assert(releases@[rs0.len() as int].handle_id == c);
                    assert(assets@[c] != st_base[c].descriptor);
                    assert forall|l: int|
                        0 <= l <= j implies {
                        let ch = #[trigger] changed@[l];
                        &&& (st_base.contains_key(ch) && assets@[ch] == st_base[ch].descriptor
                            ==> in_copies(copies@, ch))
                        &&& (st_base.contains_key(ch) && assets@[ch] != st_base[ch].descriptor
                            ==> !self.texture_resources@.contains_key(ch))
                    } by {
                        if l < j {
                            let ch = changed@[l];
                            assert(ch != changed@[j as int]);
                            if st_base.contains_key(ch) && assets@[ch] != st_base[ch].descriptor
                                && self.texture_resources@.contains_key(ch) {
                                lemma_in_releases_push(rs0, releases@.last(), ch);
                            }
                        }
                    }
                }
            } else {
                let ghost cp0 = copies@;
                copies.push(
                    CopyTask { handle_id: c, texture_id: res.texture_id, descriptor: res.descriptor },
                );
                proof {
                    assert(copies@ == cp0.push(
                        CopyTask {
                            handle_id: c,
                            texture_id: res.texture_id,
                            descriptor: res.descriptor,
                        },
                    ));
                    assert(assets@[c] == st_base[c].descriptor);
                    assert forall|l: int|
                        0 <= l <= j implies {
                        let ch = #[trigger] changed@[l];
                        &&& (st_base.contains_key(ch) && assets@[ch] == st_base[ch].descriptor
                            ==> in_copies(copies@, ch))
                        &&& (st_base.contains_key(ch) && assets@[ch] != st_base[ch].descriptor
                            ==> !self.texture_resources@.contains_key(ch))
                    } by {
                        lemma_in_copies_push(
                            cp0,
                            CopyTask {
                                handle_id: c,
                                texture_id: res.texture_id,
                                descriptor: res.descriptor,
                            },
                            changed@[l],
                        );
                    }
                }
            }
            j = j + 1;
        }
        proof {
            assert forall|h: u64| removed_in(events@, h) implies !self.texture_resources@.contains_key(
                h,
            ) by {
                let l = choose|l: int|
                    0 <= l < events@.len() && (#[trigger] events@[l]) == AssetEvent::Removed {
                        handle_id: h,
                    };
                assert(!mid_store.contains_key(h));
            }
            assert forall|h: u64|
                removed_in(events@, h) && st_base.contains_key(
                    h,
                ) implies !is_handle_of(user_registry@, h) by {
                let l = choose|l: int|
                    0 <= l < events@.len() && (#[trigger] events@[l]) == AssetEvent::Removed {
                        handle_id: h,
                    };
            }
            assert forall|h: u64|
                st_base.contains_key(h) && #[trigger] undisturbed(
                    events@,
                    assets@,
                    st_base,
                    h,
                ) implies self.texture_resources@.contains_key(h) by {
                if !self.texture_resources@.contains_key(h) {
                    assert(in_releases(releases@, h));
                    let t = choose|t: int|
                        0 <= t < releases@.len() && (#[trigger] releases@[t]).handle_id == h;
                    if t < rs_mid_len {
                        assert(removed_in(events@, h));
                    } else {
                        assert(modified_in(events@, h) && assets@.contains_key(h) && assets@[h]
                            != st_base[h].descriptor);
                    }
                }
            }
            assert forall|h: u64|
                #[trigger] modified_in(events@, h) && !removed_in(events@, h)
                    && st_base.contains_key(h) && assets@.contains_key(h) && assets@[h]
                    == st_base[h].descriptor implies in_copies(copies@, h) by {
                assert(changed@.contains(h));
                let l = choose|l: int| 0 <= l < changed@.len() && changed@[l] == h;
                assert(changed@[l] == h);
            }
            assert forall|h: u64|
                #[trigger] modified_in(events@, h) && !removed_in(events@, h)
                    && st_base.contains_key(h) && assets@.contains_key(h) && assets@[h]
                    != st_base[h].descriptor implies !self.texture_resources@.contains_key(
                h) by {
                assert(changed@.contains(h));
                let l = choose|l: int| 0 <= l < changed@.len() && changed@[l] == h;
                assert(changed@[l] == h);
            }
        }
        EventOutcome { releases, copies }
    }

    /// Garbage-collects the store: drops every realised texture whose
    /// handle is neither the font atlas nor a value of the user registry,
    /// and no other.  The font atlas is never collected here.  Returns the
    /// dropped GPU primitives, one record per dropped handle.
    pub fn remove_unused_textures(&mut self, registry: &TextureRegistry) -> (releases: Vec<
        Released,
    >)
        requires
            old(self).wf(),
            registry.wf(),
        ensures
            final(self).wf(),
            only_store_changed(*old(self), *final(self)),
            old(self).texture_resources@.contains_key(old(self).font_texture) ==> final(self).texture_resources@.contains_key(old(self).font_texture),
            forall|h: u64|
                final(self).texture_resources@.contains_key(h) <==> (
                old(self).texture_resources@.contains_key(h) && (h == old(self).font_texture
                    || is_handle_of(registry@, h))),
            forall|h: u64|
                #[trigger] final(self).texture_resources@.contains_key(h) ==> old(self).texture_resources@.contains_key(h) && (h == old(self).font_texture
                    || is_handle_of(registry@, h)) && final(self).texture_resources@[h] == old(self).texture_resources@[h],
            forall|h: u64|
                #[trigger] old(self).texture_resources@.contains_key(h) ==> ((h == old(self).font_texture || is_handle_of(registry@, h)) == final(self).texture_resources@.contains_key(h)),
            releases_distinct(releases@),
            forall|j: int|
                0 <= j < releases@.len() ==> releases_from(
                    #[trigger] releases@[j],
                    old(self).texture_resources@,
                ) && !(releases@[j].handle_id == old(self).font_texture || is_handle_of(
                    registry@,
                    releases@[j].handle_id,
                )),
            forall|h: u64|
                old(self).texture_resources@.contains_key(h) && !(h == old(self).font_texture
                    || is_handle_of(registry@, h)) ==> in_releases(releases@, h),
    {
        let ghost st_base = self.texture_resources@;
        let ghost font_base = self.font_texture;
        let handles = self.texture_resources.keys();
        let mut releases: Vec<Released> = Vec::new();
        let n = handles.len();
        let mut i: usize = 0;
        while i < n
            invariant
                i <= n,
                n == handles@.len(),
                self.wf(),
                registry.wf(),
                only_store_changed(*old(self), *self),
                self.font_texture == font_base,
                forall|a: int, b: int| 0 <= a < b < n ==> handles@[a] != handles@[b],
                forall|j: int|
                    0 <= j < n ==> st_base.contains_key(
                        #[trigger] handles@[j],
                    ),
                forall|k: u64|
                    #[trigger] st_base.contains_key(k) ==> handles@.contains(
                        k,
                    ),
                forall|q: u64|
                    self.texture_resources@.contains_key(q) <==> (
                    st_base.contains_key(q) && !in_releases(releases@, q)),
                forall|q: u64|
                    #[trigger] self.texture_resources@.contains_key(q)
                        ==> self.texture_resources@[q] == st_base[q],
                releases_distinct(releases@),
                forall|j: int|
                    0 <= j < releases@.len() ==> exists|l: int|
                        0 <= l < i && handles@[l] == (#[trigger] releases@[j]).handle_id,
                forall|j: int|
                    0 <= j < releases@.len() ==> releases_from(
                        #[trigger] releases@[j],
                        st_base,
                    ) && !(releases@[j].handle_id == font_base || is_handle_of(
                        registry@,
                        releases@[j].handle_id,
                    )),
                forall|l: int|
                    0 <= l < i ==> ((#[trigger] handles@[l]) == font_base
                        || is_handle_of(registry@, handles@[l])) || in_releases(
                        releases@,
                        handles@[l],
                    ),
            decreases n - i,
        {
            let h = handles[i];
            if h != self.font_texture && !registry.contains_handle(h) {
                let ghost rs0 = releases@;
                let ghost st0 = self.texture_resources@;
                match self.remove_texture(h) {
                    Some(g) => {
                        releases.push(g);
                        proof {
                            assert(releases@ == rs0.push(g));
                            assert forall|j: int| 0 <= j < releases@.len() implies exists|l: int|
                                0 <= l <= i && handles@[l] == (
                            #[trigger] releases@[j]).handle_id by {
                                if j < rs0.len() {
                                    let l = choose|l: int|
                                        0 <= l < i && handles@[l] == rs0[j].handle_id;
                                    assert(handles@[l] == releases@[j].handle_id);
                                } else {
                                    assert(handles@[i as int] == releases@[j].handle_id);
                                }
                            }
                            assert forall|a: int, b: int|
                                0 <= a < b < releases@.len() implies (
                            #[trigger] releases@[a]).handle_id != (
                            #[trigger] releases@[b]).handle_id by {
                                if b < rs0.len() {
                                    assert(rs0[a].handle_id != rs0[b].handle_id);
                                } else {
                                    let l = choose|l: int|
                                        0 <= l < i && handles@[l] == rs0[a].handle_id;
                                    assert(releases@[b] == g);
                                    assert(handles@[l] != handles@[i as int]);
                                }
                            }
                            assert forall|q: u64|
                                self.texture_resources@.contains_key(q) <==> (
                            st_base.contains_key(q) && !in_releases(
                                releases@,
                                q,
                            )) by {
                                lemma_in_releases_push(rs0, g, q);
                                assert(st0.contains_key(q) == (st_base.contains_key(q)
                                    && !in_releases(rs0, q)));
                            }
                            assert forall|q: u64|
                                #[trigger] self.texture_resources@.contains_key(
                                q) implies self.texture_resources@[q] == st_base[q] by {
                                assert(st0.contains_key(q));
                            }
                            assert forall|j: int|
                                0 <= j < releases@.len() implies releases_from(
                                #[trigger] releases@[j],
                                st_base,
                            ) && !(releases@[j].handle_id == font_base || is_handle_of(
                                registry@,
                                releases@[j].handle_id,
                            )) by {
                                if j < rs0.len() {
                                    assert(releases@[j] == rs0[j]);
                                } else {
                                    assert(releases@[j] == g);
                                    assert(st0.contains_key(h));
                                    assert(st0.contains_key(h) == (st_base.contains_key(h)
                                        && !in_releases(rs0, h)));
                                    assert(releases_from(g, st0));
                                }
                            }
                            assert(releases@[rs0.len() as int].handle_id == handles@[i as int]);
                        }
                    }
                    None => {
                        proof {
                            assert(st_base.contains_key(h));
                            assert(in_releases(rs0, h));
                            let j = choose|j: int|
                                0 <= j < rs0.len() && (#[trigger] rs0[j]).handle_id == h;
                            let l = choose|l: int| 0 <= l < i && handles@[l] == rs0[j].handle_id;
                            assert(handles@[l] != handles@[i as int]);
                            assert(false);
                        }
                    }
                }
                proof {
                    assert(in_releases(releases@, handles@[i as int]));
                }
            } else {
                proof {
                    if h == self.font_texture {
                        assert(handles@[i as int] == font_base);
                    }
                }
            }
            i = i + 1;
        }
        proof {
            assert forall|h: u64|
                self.texture_resources@.contains_key(h) <==> (
            st_base.contains_key(h) && (h == font_base
                || is_handle_of(registry@, h))) by {
                if st_base.contains_key(h) {
                    assert(handles@.contains(h));
                    let l = choose|l: int| 0 <= l < handles@.len() && handles@[l] == h;
                    assert((handles@[l] == font_base || is_handle_of(
                        registry@,
                        handles@[l],
                    )) || in_releases(releases@, handles@[l]));
                }
            }
        }
        releases
    }

    /// One frame's whole texture phase, in the node's order: drain the
    /// asset events, garbage-collect what no longer backs a registry entry
    /// or the font atlas, and plan the realisation of every referenced,
    /// loaded, not-yet-resident texture.  Pixel copies whose target was
    /// garbage-collected in the same frame are dropped, since their
    /// texture is freed anyway.
    pub fn reconcile_textures(
        &mut self,
        user_registry: &mut TextureRegistry,
        events: &Vec<AssetEvent>,
        assets: &AssetCatalog,
    ) -> (out: ReconcileOutcome)
        requires
            old(self).wf(),
            old(user_registry).wf(),
            assets.wf(),
        ensures
            final(self).wf(),
            final(user_registry).wf(),
            only_store_changed(*old(self), *final(self)),
            forall|h: u64|
                #[trigger] final(self).texture_resources@.contains_key(h) ==> old(self).texture_resources@.contains_key(h) && final(self).texture_resources@[h] == old(self).texture_resources@[h],
            forall|h: u64| removed_in(events@, h) ==> !final(self).texture_resources@.contains_key(h),
            forall|h: u64|
                removed_in(events@, h) && !assets@.contains_key(h) ==> !in_creates(
                    out.creates@,
                    h,
                ),
            releases_distinct(out.releases@),
            forall|j: int|
                0 <= j < out.releases@.len() ==> releases_from(
                    #[trigger] out.releases@[j],
                    old(self).texture_resources@,
                ) && !final(self).texture_resources@.contains_key(out.releases@[j].handle_id),
            forall|h: u64|
                old(self).texture_resources@.contains_key(h) && !final(self).texture_resources@.contains_key(h) ==> in_releases(out.releases@, h),
            forall|k: u32|
                #[trigger] final(user_registry)@.contains_key(k) ==> old(user_registry)@.contains_key(k) && final(user_registry)@[k] == old(user_registry)@[k],
            forall|h: u64|
                removed_in(events@, h) && old(self).texture_resources@.contains_key(h)
                    ==> !is_handle_of(final(user_registry)@, h),
            forall|t: int|
                0 <= t < out.copies@.len() ==> {
                    let c = #[trigger] out.copies@[t];
                    &&& final(self).texture_resources@.contains_key(c.handle_id)
                    &&& c.texture_id == final(self).texture_resources@[c.handle_id].texture_id
                    &&& assets@.contains_key(c.handle_id)
                    &&& assets@[c.handle_id] == final(self).texture_resources@[c.handle_id].descriptor
                },
            forall|t: int|
                0 <= t < out.creates@.len() ==> {
                    let c = #[trigger] out.creates@[t];
                    &&& !final(self).texture_resources@.contains_key(c.handle_id)
                    &&& assets@.contains_key(c.handle_id)
                    &&& assets@[c.handle_id] == c.descriptor
                },
            forall|t: int|
                0 <= t < out.rebinds@.len() ==> final(self).texture_resources@.contains_key(
                    #[trigger] out.rebinds@[t],
                ),
            forall|k: u32|
                #[trigger] old(user_registry)@.contains_key(k) && !removed_in(
                    events@,
                    old(user_registry)@[k].id,
                ) ==> final(user_registry)@.contains_key(k) && final(user_registry)@[k] == old(user_registry)@[k],
            forall|h: u64|
                old(self).texture_resources@.contains_key(h) && #[trigger] undisturbed(
                    events@,
                    assets@,
                    old(self).texture_resources@,
                    h,
                ) && (h == old(self).font_texture || is_handle_of(final(user_registry)@, h))
                    ==> final(self).texture_resources@.contains_key(h),
            forall|h: u64|
                #[trigger] modified_in(events@, h) && !removed_in(events@, h) && old(self).texture_resources@.contains_key(h) && assets@.contains_key(h) && assets@[h]
                    == old(self).texture_resources@[h].descriptor && (h == old(self).font_texture
                    || is_handle_of(final(user_registry)@, h)) ==> in_copies(out.copies@, h),
            forall|h: u64|
                (h == old(self).font_texture || is_handle_of(final(user_registry)@, h)) && !final(self).texture_resources@.contains_key(h) && #[trigger] assets@.contains_key(h)
                    ==> in_creates(out.creates@, h),
            forall|h: u64|
                (h == old(self).font_texture || is_handle_of(final(user_registry)@, h))
                    && #[trigger] final(self).texture_resources@.contains_key(h)
                    ==> out.rebinds@.contains(h),
    {
        let ghost st_base = self.texture_resources@;
        let event_outcome = self.process_asset_events(user_registry, events, assets);
        let ghost mid = self.texture_resources@;
        let ghost drain_rel = event_outcome.releases@;
        let mut releases = event_outcome.releases;
        let mut gc_releases = self.remove_unused_textures(user_registry);
        let ghost gc_rel = gc_releases@;
        releases.append(&mut gc_releases);
        proof {
            assert(releases@ == drain_rel + gc_rel);
            assert forall|q: u64|
                in_releases(releases@, q) == (in_releases(drain_rel, q) || in_releases(
                    gc_rel,
                    q,
                )) by {
                lemma_in_releases_add(drain_rel, gc_rel, q);
            }
            assert forall|a: int, b: int|
                0 <= a < b < releases@.len() implies (#[trigger] releases@[a]).handle_id != (
            #[trigger] releases@[b]).handle_id by {
                if b < drain_rel.len() {
                    assert(releases@[a] == drain_rel[a] && releases@[b] == drain_rel[b]);
                } else if a >= drain_rel.len() {
                    assert(releases@[a] == gc_rel[a - drain_rel.len()]);
                    assert(releases@[b] == gc_rel[b - drain_rel.len()]);
                } else {
                    // A drained handle is no longer resident when the
                    // garbage collection runs, so the two parts are
                    // disjoint.
                    assert(releases@[a] == drain_rel[a]);
                    assert(releases@[b] == gc_rel[b - drain_rel.len()]);
                    assert(releases_from(gc_rel[b - drain_rel.len()], mid));
                    assert(!mid.contains_key(drain_rel[a].handle_id));
                }
            }
            assert forall|j: int|
                0 <= j < releases@.len() implies releases_from(
                #[trigger] releases@[j],
                st_base,
            ) && !self.texture_resources@.contains_key(releases@[j].handle_id) by {
                if j < drain_rel.len() {
                    assert(releases@[j] == drain_rel[j]);
                    assert(!mid.contains_key(drain_rel[j].handle_id));
                } else {
                    let g = gc_rel[j - drain_rel.len()];
                    assert(releases@[j] == g);
                    assert(releases_from(g, mid));
                    assert(mid.contains_key(g.handle_id));
                }
            }
            assert forall|h: u64|
                st_base.contains_key(h) && !self.texture_resources@.contains_key(
                    h,
                ) implies in_releases(releases@, h) by {
                if mid.contains_key(h) {
                    assert(in_releases(gc_rel, h));
                } else {
                    assert(in_releases(drain_rel, h));
                }
            }
        }

        let mut copies: Vec<CopyTask> = Vec::new();
        let m = event_outcome.copies.len();
        let mut t: usize = 0;
        while t < m
            invariant
                t <= m,
                m == event_outcome.copies@.len(),
                self.wf(),
                forall|u: int|
                    0 <= u < m ==> {
                        let c = #[trigger] event_outcome.copies@[u];
                        &&& mid.contains_key(c.handle_id)
                        &&& c.texture_id == mid[c.handle_id].texture_id
                        &&& assets@.contains_key(c.handle_id)
                        &&& assets@[c.handle_id] == mid[c.handle_id].descriptor
                    },
                forall|q: u64|
                    #[trigger] self.texture_resources@.contains_key(q) ==> mid.contains_key(q)
                        && self.texture_resources@[q] == mid[q],
                forall|u: int|
                    0 <= u < copies@.len() ==> {
                        let c = #[trigger] copies@[u];
                        &&& self.texture_resources@.contains_key(c.handle_id)
                        &&& c.texture_id == self.texture_resources@[c.handle_id].texture_id
                        &&& assets@.contains_key(c.handle_id)
                        &&& assets@[c.handle_id] == self.texture_resources@[c.handle_id].descriptor
                    },
                forall|u: int|
                    0 <= u < t ==> (self.texture_resources@.contains_key(
                        (#[trigger] event_outcome.copies@[u]).handle_id,
                    ) ==> in_copies(copies@, event_outcome.copies@[u].handle_id)),
            decreases m - t,
        {
            let c = event_outcome.copies[t];
            let ghost cp0 = copies@;
            if self.texture_resources.contains_key(c.handle_id) {
                copies.push(c);
            }
            proof {
                assert forall|u: int|
                    0 <= u <= t implies (self.texture_resources@.contains_key(
                    (#[trigger] event_outcome.copies@[u]).handle_id,
                ) ==> in_copies(copies@, event_outcome.copies@[u].handle_id)) by {
                    if copies@.len() > cp0.len() {
                        lemma_in_copies_push(cp0, c, event_outcome.copies@[u].handle_id);
                    }
                }
            }
            t = t + 1;
        }

        proof {
            assert forall|h: u64|
                st_base.contains_key(h) && #[trigger] undisturbed(events@, assets@, st_base, h)
                    && (h == old(self).font_texture || is_handle_of(
                    user_registry@,
                    h,
                )) implies self.texture_resources@.contains_key(h) by {
                assert(mid.contains_key(h));
            }
            assert forall|h: u64|
                #[trigger] modified_in(events@, h) && !removed_in(events@, h)
                    && st_base.contains_key(h) && assets@.contains_key(h) && assets@[h]
                    == st_base[h].descriptor && (h == old(self).font_texture || is_handle_of(
                    user_registry@,
                    h,
                )) implies in_copies(copies@, h) by {
                assert(undisturbed(events@, assets@, st_base, h));
                assert(mid.contains_key(h));
                assert(self.texture_resources@.contains_key(h));
                assert(in_copies(event_outcome.copies@, h));
                let u = choose|u: int|
                    0 <= u < event_outcome.copies@.len() && (
                    #[trigger] event_outcome.copies@[u]).handle_id == h;
                assert(in_copies(copies@, event_outcome.copies@[u].handle_id));
            }
        }
        let (creates, rebinds) = self.plan_texture_creations(user_registry, assets);
        ReconcileOutcome { releases, copies, creates, rebinds }
    }
}

} // verus!

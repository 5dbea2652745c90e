//! Recording of the UI render pass as a transcript of plain actions the
//! unverified shell replays against the GPU: bind the pipeline and buffers,
//! touch every realised texture's bind group once (so backend-driven bind
//! group collection cannot reclaim them mid-frame), then walk the draw
//! commands, skipping those whose texture is not realised while still
//! advancing the vertex offset, and clipping each draw by its command's
//! rectangle or by the full window.

use crate::draw::{ClipRect, DrawCommand};
use crate::textures::{TextureResource, TextureStore};
use vstd::prelude::*;

verus! {

/// Physical extent of the window's framebuffer in pixels.
#[derive(Clone, Copy, Debug, PartialEq, Eq, Structural)]
pub struct PhysicalExtent {
    /// Width in physical pixels.
    pub width: u32,
    /// Height in physical pixels.
    pub height: u32,
}

/// One render-pass action, replayed in order by the shell.
#[derive(Clone, Copy, Debug, PartialEq, Eq, Structural)]
pub enum PassAction {
    /// Bind the UI pipeline.
    SetPipeline,
    /// Bind the shared vertex buffer at slot 0.
    SetVertexBuffer {
        /// GPU buffer id.
        buffer_id: u64,
    },
    /// Bind the shared index buffer.
    SetIndexBuffer {
        /// GPU buffer id.
        buffer_id: u64,
    },
    /// Bind the transform bind group at index 0.
    SetTransformBindGroup {
        /// GPU bind group id.
        bind_group_id: u64,
    },
    /// Bind a texture's bind group at index 1.
    SetTextureBindGroup {
        /// GPU bind group id.
        bind_group_id: u64,
    },
    /// Clip subsequent draws to a rectangle of physical pixels.
    SetScissor {
        /// Left edge.
        x: u32,
        /// Top edge.
        y: u32,
        /// Width.
        w: u32,
        /// Height.
        h: u32,
    },
    /// Draw the index range `start..end` of the shared index buffer.
    DrawIndexed {
        /// First index.
        start: u32,
        /// One past the last index.
        end: u32,
    },
}

/// Sum of the index counts the first `i` commands cover: the vertex offset
/// the pass holds when it reaches command `i`.
pub open spec fn cmd_base(commands: Seq<DrawCommand>, i: int) -> int
    decreases i,
{
    if i <= 0 {
        0
    } else {
        cmd_base(commands, i - 1) + commands[i - 1].vertices_count
    }
}

/// Total index count over all commands.
pub open spec fn total_cmd_count(commands: Seq<DrawCommand>) -> int {
    cmd_base(commands, commands.len() as int)
}

/// The command bases never decrease and start at zero.
pub proof fn lemma_cmd_base_monotone(commands: Seq<DrawCommand>, a: int, b: int)
    requires
        0 <= a <= b <= commands.len(),
    ensures
        0 <= cmd_base(commands, a) <= cmd_base(commands, b),
    decreases b,
{
    if b > 0 {
        if a == b {
            lemma_cmd_base_monotone(commands, b - 1, b - 1);
        } else {
            lemma_cmd_base_monotone(commands, a, b - 1);
        }
    }
}

/// The scissor a command draws under: its clip rectangle, or the full
/// physical window extent when it has none.
pub open spec fn scissor_action(clip: Option<ClipRect>, window: PhysicalExtent) -> PassAction {
    match clip {
        Some(r) => PassAction::SetScissor { x: r.x, y: r.y, w: r.w, h: r.h },
        None => PassAction::SetScissor { x: 0, y: 0, w: window.width, h: window.height },
    }
}

/// A command draws exactly when its resolved texture is realised.
pub open spec fn command_resolves(c: DrawCommand, store: Map<u64, TextureResource>) -> bool {
    match c.texture_handle {
        Some(h) => store.contains_key(h),
        None => false,
    }
}

/// The actions the command walk records, starting at vertex offset
/// `offset`: a skipped command leaves no action but still advances the
/// offset by its count; a drawn one binds its texture's bind group, applies
/// its scissor, and draws its index range.
pub open spec fn draw_actions(
    commands: Seq<DrawCommand>,
    store: Map<u64, TextureResource>,
    window: PhysicalExtent,
    offset: int,
) -> Seq<PassAction>
    decreases commands.len(),
{
    if commands.len() == 0 {
        Seq::empty()
    } else {
        let c = commands[0];
        let rest = draw_actions(commands.drop_first(), store, window, offset + c.vertices_count);
        match c.texture_handle {
            Some(h) => if store.contains_key(h) {
                seq![
                    PassAction::SetTextureBindGroup { bind_group_id: store[h].bind_group_id },
                    scissor_action(c.clipping_zone, window),
                    PassAction::DrawIndexed {
                        start: offset as u32,
                        end: (offset + c.vertices_count) as u32,
                    },
                ] + rest
            } else {
                rest
            },
            None => rest,
        }
    }
}

/// The once-per-pass touches that keep every realised texture's bind group
/// alive, in the order of `handles`.
pub open spec fn touch_actions(handles: Seq<u64>, store: Map<u64, TextureResource>) -> Seq<
    PassAction,
> {
    Seq::new(
        handles.len(),
        |i: int| PassAction::SetTextureBindGroup { bind_group_id: store[handles[i]].bind_group_id },
    )
}

/// The whole pass transcript: pipeline, shared buffers and transform group,
/// then the keep-alive touches, then the command walk from offset zero.
pub open spec fn pass_actions(
    commands: Seq<DrawCommand>,
    store: Map<u64, TextureResource>,
    window: PhysicalExtent,
    transform_bind_group: u64,
    vertex_buffer: u64,
    index_buffer: u64,
    kludge_handles: Seq<u64>,
) -> Seq<PassAction> {
    seq![
        PassAction::SetPipeline,
        PassAction::SetVertexBuffer { buffer_id: vertex_buffer },
        PassAction::SetIndexBuffer { buffer_id: index_buffer },
        PassAction::SetTransformBindGroup { bind_group_id: transform_bind_group },
    ] + touch_actions(kludge_handles, store) + draw_actions(commands, store, window, 0)
}

/// Law: the command walk binds only bind groups of currently realised
/// textures, so the resources of a handle dropped from the store are never
/// bound again.
pub proof fn lemma_draws_bind_only_resident(
    commands: Seq<DrawCommand>,
    store: Map<u64, TextureResource>,
    window: PhysicalExtent,
    offset: int,
)
    ensures
        forall|j: int|
            0 <= j < draw_actions(commands, store, window, offset).len() ==> ((
            #[trigger] draw_actions(commands, store, window, offset)[j])
                matches PassAction::SetTextureBindGroup { bind_group_id } ==> exists|k: u64|
                #[trigger] store.contains_key(k) && store[k].bind_group_id == bind_group_id),
    decreases commands.len(),
{
    if commands.len() > 0 {
        let c = commands[0];
        let rest = draw_actions(commands.drop_first(), store, window, offset + c.vertices_count);
        lemma_draws_bind_only_resident(commands.drop_first(), store, window, offset
            + c.vertices_count);
        let all = draw_actions(commands, store, window, offset);
        assert forall|j: int|
            0 <= j < all.len() implies ((#[trigger] all[j])
                matches PassAction::SetTextureBindGroup { bind_group_id } ==> exists|k: u64|
                #[trigger] store.contains_key(k) && store[k].bind_group_id == bind_group_id) by {
            match c.texture_handle {
                Some(h) => {
                    if store.contains_key(h) {
                        if j >= 3 {
                            assert(all[j] == rest[j - 3]);
                        } else if j == 0 {
                            assert(all[0] == PassAction::SetTextureBindGroup {
                                bind_group_id: store[h].bind_group_id,
                            });
                        }
                    } else {
                        assert(all[j] == rest[j]);
                    }
                }
                None => {
                    assert(all[j] == rest[j]);
                }
            }
        }
    }
}

/// Law: the whole pass transcript binds only bind groups of currently
/// realised textures (the setup actions bind none; the keep-alive touches
/// bind realised ones by construction).
pub proof fn lemma_pass_binds_only_resident(
    commands: Seq<DrawCommand>,
    store: Map<u64, TextureResource>,
    window: PhysicalExtent,
    transform_bind_group: u64,
    vertex_buffer: u64,
    index_buffer: u64,
    kludge_handles: Seq<u64>,
)
    requires
        forall|j: int|
            0 <= j < kludge_handles.len() ==> store.contains_key(#[trigger] kludge_handles[j]),
    ensures
        forall|j: int|
            0 <= j < pass_actions(
                commands,
                store,
                window,
                transform_bind_group,
                vertex_buffer,
                index_buffer,
                kludge_handles,
            ).len() ==> ((#[trigger] pass_actions(
                commands,
                store,
                window,
                transform_bind_group,
                vertex_buffer,
                index_buffer,
                kludge_handles,
            )[j]) matches PassAction::SetTextureBindGroup { bind_group_id } ==> exists|k: u64|
                #[trigger] store.contains_key(k) && store[k].bind_group_id == bind_group_id),
{
    let all = pass_actions(
        commands,
        store,
        window,
        transform_bind_group,
        vertex_buffer,
        index_buffer,
        kludge_handles,
    );
    let touches = touch_actions(kludge_handles, store);
    let draws = draw_actions(commands, store, window, 0);
    lemma_draws_bind_only_resident(commands, store, window, 0);
    assert forall|j: int|
        0 <= j < all.len() implies ((#[trigger] all[j])
            matches PassAction::SetTextureBindGroup { bind_group_id } ==> exists|k: u64|
            #[trigger] store.contains_key(k) && store[k].bind_group_id == bind_group_id) by {
        if 4 <= j < 4 + touches.len() {
            assert(all[j] == touches[j - 4]);
            assert(store.contains_key(kludge_handles[j - 4]));
        } else if j >= 4 + touches.len() {
            assert(all[j] == draws[j - 4 - touches.len()]);
        }
    }
}

/// Law: once a texture's resources are dropped from the store, its bind
/// group is never bound by the pass: with no resident texture sharing a
/// dropped bind group id, no action of the transcript binds that id.
pub proof fn lemma_dropped_group_never_bound(
    commands: Seq<DrawCommand>,
    store: Map<u64, TextureResource>,
    window: PhysicalExtent,
    transform_bind_group: u64,
    vertex_buffer: u64,
    index_buffer: u64,
    kludge_handles: Seq<u64>,
    dropped_group: u64,
)
    requires
        forall|j: int|
            0 <= j < kludge_handles.len() ==> store.contains_key(#[trigger] kludge_handles[j]),
        forall|k: u64|
            #[trigger] store.contains_key(k) ==> store[k].bind_group_id != dropped_group,
    ensures
        forall|j: int|
            0 <= j < pass_actions(
                commands,
                store,
                window,
                transform_bind_group,
                vertex_buffer,
                index_buffer,
                kludge_handles,
            ).len() ==> #[trigger] pass_actions(
                commands,
                store,
                window,
                transform_bind_group,
                vertex_buffer,
                index_buffer,
                kludge_handles,
            )[j] != (PassAction::SetTextureBindGroup { bind_group_id: dropped_group }),
{
    lemma_pass_binds_only_resident(
        commands,
        store,
        window,
        transform_bind_group,
        vertex_buffer,
        index_buffer,
        kludge_handles,
    );
    let all = pass_actions(
        commands,
        store,
        window,
        transform_bind_group,
        vertex_buffer,
        index_buffer,
        kludge_handles,
    );
    assert forall|j: int|
        0 <= j < all.len() implies #[trigger] all[j] != (PassAction::SetTextureBindGroup {
        bind_group_id: dropped_group,
    }) by {
        if all[j] == (PassAction::SetTextureBindGroup { bind_group_id: dropped_group }) {
            let k = choose|k: u64|
                #[trigger] store.contains_key(k) && store[k].bind_group_id == dropped_group;
        }
    }
}

/// Records the UI pass as an action transcript: setup, keep-alive touches
/// for every handle of `kludge_handles`, then the command walk.  A command
/// whose texture is not realised records nothing but still advances the
/// vertex offset by its count.
pub fn record_pass(
    commands: &Vec<DrawCommand>,
    store: &TextureStore,
    window: PhysicalExtent,
    transform_bind_group: u64,
    vertex_buffer: u64,
    index_buffer: u64,
    kludge_handles: &Vec<u64>,
) -> (actions: Vec<PassAction>)
    requires
        store.wf(),
        forall|j: int|
            0 <= j < kludge_handles@.len() ==> store@.contains_key(#[trigger] kludge_handles@[j]),
        total_cmd_count(commands@) <= u32::MAX,
    ensures
        actions@ == pass_actions(
            commands@,
            store@,
            window,
            transform_bind_group,
            vertex_buffer,
            index_buffer,
            kludge_handles@,
        ),
{
    let ghost expected = pass_actions(
        commands@,
        store@,
        window,
        transform_bind_group,
        vertex_buffer,
        index_buffer,
        kludge_handles@,
    );
    let mut actions: Vec<PassAction> = Vec::new();
    actions.push(PassAction::SetPipeline);
    actions.push(PassAction::SetVertexBuffer { buffer_id: vertex_buffer });
    actions.push(PassAction::SetIndexBuffer { buffer_id: index_buffer });
    actions.push(PassAction::SetTransformBindGroup { bind_group_id: transform_bind_group });
    proof {
        assert(actions@ =~= seq![
            PassAction::SetPipeline,
            PassAction::SetVertexBuffer { buffer_id: vertex_buffer },
            PassAction::SetIndexBuffer { buffer_id: index_buffer },
            PassAction::SetTransformBindGroup { bind_group_id: transform_bind_group },
        ]);
        assert(actions@ =~= actions@ + touch_actions(kludge_handles@.take(0), store@));
    }
    let ghost setup = actions@;

    let kn = kludge_handles.len();
    let mut t: usize = 0;
    while t < kn
        invariant
            t <= kn,
            kn == kludge_handles@.len(),
            store.wf(),
            forall|j: int|
                0 <= j < kludge_handles@.len() ==> store@.contains_key(
                    #[trigger] kludge_handles@[j],
                ),
            actions@ == setup + touch_actions(kludge_handles@.take(t as int), store@),
        decreases kn - t,
    {
        let h = kludge_handles[t];
        match store.get(h) {
            Some(res) => {
                actions.push(PassAction::SetTextureBindGroup { bind_group_id: res.bind_group_id });
                proof {
                    assert(touch_actions(kludge_handles@.take(t as int + 1), store@)
                        =~= touch_actions(kludge_handles@.take(t as int), store@).push(
                        PassAction::SetTextureBindGroup {
                            bind_group_id: store@[kludge_handles@[t as int]].bind_group_id,
                        },
                    ));
                }
            }
            None => {
                proof {
                    assert(false);
                }
            }
        }
        t = t + 1;
    }
    proof {
        assert(kludge_handles@.take(kn as int) =~= kludge_handles@);
        assert(commands@.skip(0) =~= commands@);
        assert(expected =~= actions@ + draw_actions(commands@, store@, window, 0));
        assert(expected == actions@ + draw_actions(
            commands@.skip(0),
            store@,
            window,
            cmd_base(commands@, 0),
        ));
    }

    let n = commands.len();
    let mut vertex_offset: u32 = 0;
    let mut i: usize = 0;
    while i < n
        invariant
            i <= n,
            n == commands@.len(),
            store.wf(),
            total_cmd_count(commands@) <= u32::MAX,
            vertex_offset as int == cmd_base(commands@, i as int),
            expected == actions@ + draw_actions(
                commands@.skip(i as int),
                store@,
                window,
                cmd_base(commands@, i as int),
            ),
        decreases n - i,
    {
        let c = commands[i];
        let ghost a0 = actions@;
        proof {
            lemma_cmd_base_monotone(commands@, i as int, i as int + 1);
            lemma_cmd_base_monotone(commands@, i as int + 1, n as int);
            assert(commands@.skip(i as int).len() == n - i);
            assert(commands@.skip(i as int)[0] == commands@[i as int]);
            assert(commands@.skip(i as int).drop_first() =~= commands@.skip(i as int + 1));
        }
        let next_offset: u32 = vertex_offset + (c.vertices_count as u32);
        match c.texture_handle {
            Some(h) => {
                match store.get(h) {
                    Some(res) => {
                        actions.push(
                            PassAction::SetTextureBindGroup { bind_group_id: res.bind_group_id },
                        );
                        match c.clipping_zone {
                            Some(r) => {
                                actions.push(
                                    PassAction::SetScissor { x: r.x, y: r.y, w: r.w, h: r.h },
                                );
                            }
                            None => {
                                actions.push(
                                    PassAction::SetScissor {
                                        x: 0,
                                        y: 0,
                                        w: window.width,
                                        h: window.height,
                                    },
                                );
                            }
                        }
                        actions.push(
                            PassAction::DrawIndexed { start: vertex_offset, end: next_offset },
                        );
                    }
                    None => {},
                }
            }
            None => {},
        }
        proof {
            let ci = commands@[i as int];
            let base_i = cmd_base(commands@, i as int);
            let rest = draw_actions(
                commands@.skip(i as int + 1),
                store@,
                window,
                cmd_base(commands@, i as int + 1),
            );
            if command_resolves(ci, store@) {
                let mid = seq![
                    PassAction::SetTextureBindGroup {
                        bind_group_id: store@[ci.texture_handle->0].bind_group_id,
                    },
                    scissor_action(ci.clipping_zone, window),
                    PassAction::DrawIndexed {
                        start: base_i as u32,
                        end: (base_i + ci.vertices_count) as u32,
                    },
                ];
                assert(actions@ =~= a0 + mid);
                assert(draw_actions(commands@.skip(i as int), store@, window, base_i) =~= mid
                    + rest);
                assert(expected =~= actions@ + rest);
            } else {
                assert(actions@ == a0);
                assert(draw_actions(commands@.skip(i as int), store@, window, base_i) =~= rest);
                assert(expected =~= actions@ + rest);
            }
        }
        vertex_offset = next_offset;
        i = i + 1;
    }
    proof {
        assert(commands@.skip(n as int) =~= Seq::<DrawCommand>::empty());
        assert(actions@ =~= expected);
    }
    actions
}

} // verus!

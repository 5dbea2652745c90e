//! Per-frame assembly of the UI's draw lists into one shared vertex buffer,
//! one shared index buffer, and a list of draw commands.
//!
//! Each draw list carries packed vertex bytes, `u16` indices local to the
//! list, an optional texture selector, and an optional clip rectangle.  The
//! assembly concatenates all vertex bytes, rewrites each list's indices by
//! the running vertex count so every draw can share one vertex buffer, and
//! emits one command per list with its texture selector resolved against the
//! user registry (no selector means the font atlas).

use crate::handle::TexHandle;
use crate::registry::TextureRegistry;
use vstd::prelude::*;

verus! {

/// Bytes of one packed vertex: position (three scalars), texture coordinates
/// (two) and color (four), four bytes each.
pub const VERTEX_STRIDE: usize = 36;

/// A clipping rectangle in physical framebuffer pixels.
#[derive(Clone, Copy, Debug, PartialEq, Eq, Structural)]
pub struct ClipRect {
    /// Left edge.
    pub x: u32,
    /// Top edge.
    pub y: u32,
    /// Width.
    pub w: u32,
    /// Height.
    pub h: u32,
}

/// One triangulated batch harvested from the UI.
pub struct DrawListData {
    /// The packed bytes of this list's vertices, `VERTEX_STRIDE` each.
    pub vertex_data: Vec<u8>,
    /// How many vertices `vertex_data` packs.
    pub vertex_count: usize,
    /// Triangle indices, local to this list's vertices.
    pub indices: Vec<u16>,
    /// User texture id this batch samples from; `None` means the font atlas.
    pub texture: Option<u32>,
    /// Clip rectangle in physical pixels, if the list is clipped.
    pub clipping_zone: Option<ClipRect>,
}

impl DrawListData {
    /// The wire format's well-formedness: the byte blob packs exactly
    /// `vertex_count` vertices and every index points into them.
    pub open spec fn wf(self) -> bool {
        &&& self.vertex_data@.len() == self.vertex_count * VERTEX_STRIDE
        &&& forall|j: int|
            0 <= j < self.indices@.len() ==> (#[trigger] self.indices@[j]) < self.vertex_count
    }
}

/// One draw recorded for the pass, covering `vertices_count` indices.
#[derive(Clone, Copy, Debug, PartialEq, Eq, Structural)]
pub struct DrawCommand {
    /// How many entries of the shared index buffer this draw covers.
    pub vertices_count: usize,
    /// The asset id of the texture to bind, or `None` when the selector did
    /// not resolve (the draw is then skipped).
    pub texture_handle: Option<u64>,
    /// Clip rectangle in physical pixels, if any.
    pub clipping_zone: Option<ClipRect>,
}

/// The assembled frame: shared buffers plus one command per draw list.
pub struct FrameMesh {
    /// All lists' vertex bytes, concatenated in list order.
    pub vertex_bytes: Vec<u8>,
    /// All lists' indices, each list's shifted by its vertex base.
    pub indices: Vec<u16>,
    /// One command per draw list, in order.
    pub commands: Vec<DrawCommand>,
}

/// Sum of the vertex counts of the first `i` lists: the vertex base of list
/// `i`, and the value the running index offset holds before list `i`.
pub open spec fn vertex_base(lists: Seq<DrawListData>, i: int) -> int
    decreases i,
{
    if i <= 0 {
        0
    } else {
        vertex_base(lists, i - 1) + lists[i - 1].vertex_count
    }
}

/// Total vertex count over all lists.
pub open spec fn total_vertex_count(lists: Seq<DrawListData>) -> int {
    vertex_base(lists, lists.len() as int)
}

/// Sum of the index counts of the first `i` lists: where list `i`'s segment
/// starts in the shared index buffer.
pub open spec fn index_base(lists: Seq<DrawListData>, i: int) -> int
    decreases i,
{
    if i <= 0 {
        0
    } else {
        index_base(lists, i - 1) + lists[i - 1].indices@.len()
    }
}

/// Total index count over all lists.
pub open spec fn total_index_count(lists: Seq<DrawListData>) -> int {
    index_base(lists, lists.len() as int)
}

/// One list's indices, shifted by its vertex base.
pub open spec fn shifted_indices(l: DrawListData, base: int) -> Seq<u16> {
    Seq::new(l.indices@.len(), |j: int| (l.indices@[j] + base) as u16)
}

/// The shared index buffer built from the first `i` lists.
pub open spec fn out_indices_upto(lists: Seq<DrawListData>, i: int) -> Seq<u16>
    decreases i,
{
    if i <= 0 {
        Seq::empty()
    } else {
        out_indices_upto(lists, i - 1) + shifted_indices(
            lists[i - 1],
            vertex_base(lists, i - 1),
        )
    }
}

/// The whole shared index buffer.
pub open spec fn out_indices(lists: Seq<DrawListData>) -> Seq<u16> {
    out_indices_upto(lists, lists.len() as int)
}

/// The shared vertex buffer built from the first `i` lists.
pub open spec fn vertex_bytes_upto(lists: Seq<DrawListData>, i: int) -> Seq<u8>
    decreases i,
{
    if i <= 0 {
        Seq::empty()
    } else {
        vertex_bytes_upto(lists, i - 1) + lists[i - 1].vertex_data@
    }
}

/// The whole shared vertex buffer.
pub open spec fn out_vertex_bytes(lists: Seq<DrawListData>) -> Seq<u8> {
    vertex_bytes_upto(lists, lists.len() as int)
}

/// What a list's texture selector resolves to: a missing selector means the
/// font atlas; a selector absent from the registry resolves to nothing and
/// the draw will be skipped.
pub open spec fn resolve_texture(
    selector: Option<u32>,
    registry: Map<u32, TexHandle>,
    font_id: u64,
) -> Option<u64> {
    match selector {
        Some(id) => if registry.contains_key(id) {
            Some(registry[id].id)
        } else {
            None
        },
        None => Some(font_id),
    }
}

/// The draw command a list assembles to.
pub open spec fn command_of(
    l: DrawListData,
    registry: Map<u32, TexHandle>,
    font_id: u64,
) -> DrawCommand {
    DrawCommand {
        vertices_count: l.indices@.len() as usize,
        texture_handle: resolve_texture(l.texture, registry, font_id),
        clipping_zone: l.clipping_zone,
    }
}

/// The vertex and index bases are prefix sums: they never decrease, start at
/// zero, and each list's segment ends where the next begins.
pub proof fn lemma_bases_monotone(lists: Seq<DrawListData>, a: int, b: int)
    requires
        0 <= a <= b <= lists.len(),
    ensures
        0 <= vertex_base(lists, a) <= vertex_base(lists, b),
        0 <= index_base(lists, a) <= index_base(lists, b),
    decreases b,
{
    if b > 0 {
        if a == b {
            lemma_bases_monotone(lists, b - 1, b - 1);
        } else {
            lemma_bases_monotone(lists, a, b - 1);
        }
    }
}

/// The buffers built from the first `i` lists have exactly the lengths the
/// prefix sums give.
pub proof fn lemma_upto_lens(lists: Seq<DrawListData>, i: int)
    requires
        0 <= i <= lists.len(),
        forall|t: int| 0 <= t < lists.len() ==> (#[trigger] lists[t]).wf(),
    ensures
        out_indices_upto(lists, i).len() == index_base(lists, i),
        vertex_bytes_upto(lists, i).len() == VERTEX_STRIDE * vertex_base(lists, i),
    decreases i,
{
    if i > 0 {
        lemma_upto_lens(lists, i - 1);
        assert(lists[i - 1].wf());
    }
}

/// Positions below `index_base(lists, m)` are settled once the first `m`
/// lists are in: later lists only append.
proof fn lemma_upto_prefix_stable(lists: Seq<DrawListData>, m: int, n: int, p: int)
    requires
        0 <= m <= n <= lists.len(),
        0 <= p < index_base(lists, m),
        forall|t: int| 0 <= t < lists.len() ==> (#[trigger] lists[t]).wf(),
    ensures
        out_indices_upto(lists, n)[p] == out_indices_upto(lists, m)[p],
    decreases n - m,
{
    lemma_upto_lens(lists, m);
    if m < n {
        lemma_upto_prefix_stable(lists, m, n - 1, p);
        lemma_upto_lens(lists, n - 1);
        lemma_bases_monotone(lists, m, n - 1);
    }
}

/// Where each rewritten index lands and what it holds: position
/// `index_base(lists, i) + j` of the shared index buffer holds list `i`'s
/// index `j`, shifted by list `i`'s vertex base.
pub proof fn lemma_out_indices_at(lists: Seq<DrawListData>, i: int, j: int)
    requires
        0 <= i < lists.len(),
        0 <= j < lists[i].indices@.len(),
        forall|t: int| 0 <= t < lists.len() ==> (#[trigger] lists[t]).wf(),
    ensures
        out_indices(lists)[index_base(lists, i) + j] == (lists[i].indices@[j] + vertex_base(
            lists,
            i,
        )) as u16,
    decreases lists.len(),
{
    lemma_upto_lens(lists, i);
    lemma_bases_monotone(lists, 0, i);
    assert(out_indices_upto(lists, i + 1)[index_base(lists, i) + j] == shifted_indices(
        lists[i],
        vertex_base(lists, i),
    )[j]);
    lemma_upto_prefix_stable(lists, i + 1, lists.len() as int, index_base(lists, i) + j);
}

/// The emitted index stream: it carries exactly as many indices as the lists
/// do together, and each list's segment holds that list's indices shifted
/// into `[vertex_base, vertex_base + vertex_count)`.
pub proof fn lemma_index_stream_in_range(lists: Seq<DrawListData>)
    requires
        forall|t: int| 0 <= t < lists.len() ==> (#[trigger] lists[t]).wf(),
        total_vertex_count(lists) <= 0xFFFF,
    ensures
        out_indices(lists).len() == total_index_count(lists),
        forall|i: int, j: int|
            0 <= i < lists.len() && 0 <= j < lists[i].indices@.len() ==> {
                let v = out_indices(lists)[index_base(lists, i) + j] as int;
                let x = #[trigger] lists[i].indices@[j];
                &&& v == x + vertex_base(lists, i)
                &&& vertex_base(lists, i) <= v < vertex_base(lists, i) + lists[i].vertex_count
            },
{
    lemma_upto_lens(lists, lists.len() as int);
    assert forall|i: int, j: int|
        0 <= i < lists.len() && 0 <= j < lists[i].indices@.len() implies {
        let v = out_indices(lists)[index_base(lists, i) + j] as int;
        let x = #[trigger] lists[i].indices@[j];
        &&& v == x + vertex_base(lists, i)
        &&& vertex_base(lists, i) <= v < vertex_base(lists, i) + lists[i].vertex_count
    } by {
        lemma_out_indices_at(lists, i, j);
        lemma_bases_monotone(lists, 0, i);
        lemma_bases_monotone(lists, i + 1, lists.len() as int);
        assert(lists[i].wf());
        assert(lists[i].indices@[j] < lists[i].vertex_count);
        assert(vertex_base(lists, i) + lists[i].vertex_count == vertex_base(lists, i + 1));
        assert(lists[i].indices@[j] + vertex_base(lists, i) < 0x10000);
    }
}

/// The running vertex base after all lists equals the total vertex count
/// written to the shared vertex buffer.
pub proof fn lemma_vertex_buffer_total(lists: Seq<DrawListData>)
    requires
        forall|t: int| 0 <= t < lists.len() ==> (#[trigger] lists[t]).wf(),
    ensures
        out_vertex_bytes(lists).len() == VERTEX_STRIDE * total_vertex_count(lists),
{
    lemma_upto_lens(lists, lists.len() as int);
}

/// Assembles the frame's draw lists into the shared buffers and the command
/// list.  Vertex bytes are concatenated in list order; each list's indices
/// are shifted by the running vertex count; each list becomes one command
/// with its texture selector resolved against the registry.
pub fn assemble_buffers(
    lists: &Vec<DrawListData>,
    registry: &TextureRegistry,
    font_id: u64,
) -> (mesh: FrameMesh)
    requires
        registry.wf(),
        forall|t: int| 0 <= t < lists@.len() ==> (#[trigger] lists@[t]).wf(),
        total_vertex_count(lists@) <= 0xFFFF,
    ensures
        mesh.vertex_bytes@ == out_vertex_bytes(lists@),
        mesh.indices@ == out_indices(lists@),
        mesh.commands@.len() == lists@.len(),
        forall|t: int|
            0 <= t < lists@.len() ==> (#[trigger] mesh.commands@[t]) == command_of(
                lists@[t],
                registry@,
                font_id,
            ),
        mesh.indices@.len() == total_index_count(lists@),
        mesh.vertex_bytes@.len() == VERTEX_STRIDE * total_vertex_count(lists@),
        forall|i: int, j: int|
            0 <= i < lists@.len() && 0 <= j < lists@[i].indices@.len() ==> {
                let v = mesh.indices@[index_base(lists@, i) + j] as int;
                let x = #[trigger] lists@[i].indices@[j];
                &&& v == x + vertex_base(lists@, i)
                &&& vertex_base(lists@, i) <= v < vertex_base(lists@, i) + lists@[i].vertex_count
            },
{
    let n = lists.len();
    let mut vertex_bytes: Vec<u8> = Vec::new();
    let mut indices: Vec<u16> = Vec::new();
    let mut commands: Vec<DrawCommand> = Vec::new();
    let mut offset: u16 = 0;
    let mut i: usize = 0;
    while i < n
        invariant
            i <= n,
            n == lists@.len(),
            registry.wf(),
            forall|t: int| 0 <= t < lists@.len() ==> (#[trigger] lists@[t]).wf(),
            total_vertex_count(lists@) <= 0xFFFF,
            offset as int == vertex_base(lists@, i as int),
            vertex_bytes@ == vertex_bytes_upto(lists@, i as int),
            indices@ == out_indices_upto(lists@, i as int),
            commands@.len() == i,
            forall|t: int|
                0 <= t < i ==> (#[trigger] commands@[t]) == command_of(
                    lists@[t],
                    registry@,
                    font_id,
                ),
        decreases n - i,
    {
        let l = &lists[i];
        proof {
            assert(lists@[i as int].wf());
            lemma_bases_monotone(lists@, i as int, i as int + 1);
            lemma_bases_monotone(lists@, i as int + 1, n as int);
        }
        let texture_handle: Option<u64> = match l.texture {
            Some(id) => match registry.get(id) {
                Some(h) => Some(h.id),
                None => None,
            },
            None => Some(font_id),
        };

        let ghost vb0 = vertex_bytes@;
        let vcount = l.vertex_data.len();
        let mut b: usize = 0;
        while b < vcount
            invariant
                b <= vcount,
                vcount == l.vertex_data@.len(),
                vertex_bytes@ == vb0 + l.vertex_data@.take(b as int),
            decreases vcount - b,
        {
            vertex_bytes.push(l.vertex_data[b]);
            proof {
                assert(l.vertex_data@.take(b as int + 1) =~= l.vertex_data@.take(b as int).push(
                    l.vertex_data@[b as int],
                ));
            }
            b = b + 1;
        }
        proof {
            assert(l.vertex_data@.take(vcount as int) =~= l.vertex_data@);
            assert(vertex_bytes@ =~= vertex_bytes_upto(lists@, i as int + 1));
        }

        let ghost ix0 = indices@;
        let ghost base = vertex_base(lists@, i as int);
        let m = l.indices.len();
        let mut j: usize = 0;
        while j < m
            invariant
                j <= m,
                m == l.indices@.len(),
                l.wf(),
                offset as int == base,
                base + l.vertex_count <= 0xFFFF,
                indices@ == ix0 + shifted_indices(*l, base).take(j as int),
            decreases m - j,
        {
            let v: u16 = l.indices[j] + offset;
            indices.push(v);
            proof {
                assert(l.indices@[j as int] < l.vertex_count);
                assert(shifted_indices(*l, base)[j as int] == v);
                assert(shifted_indices(*l, base).take(j as int + 1) =~= shifted_indices(
                    *l,
                    base,
                ).take(j as int).push(v));
            }
            j = j + 1;
        }
        proof {
            assert(shifted_indices(*l, base).take(m as int) =~= shifted_indices(*l, base));
            assert(indices@ =~= out_indices_upto(lists@, i as int + 1));
        }

        commands.push(
            DrawCommand { vertices_count: m, texture_handle, clipping_zone: l.clipping_zone },
        );

        proof {
            assert(l.vertex_count <= 0xFFFF);
        }
        offset = offset + (l.vertex_count as u16);
        i = i + 1;
    }
    let mesh = FrameMesh { vertex_bytes, indices, commands };
    proof {
        lemma_index_stream_in_range(lists@);
        lemma_vertex_buffer_total(lists@);
        assert forall|i: int, j: int|
            0 <= i < lists@.len() && 0 <= j < lists@[i].indices@.len() implies {
            let v = mesh.indices@[index_base(lists@, i) + j] as int;
            let x = #[trigger] lists@[i].indices@[j];
            &&& v == x + vertex_base(lists@, i)
            &&& vertex_base(lists@, i) <= v < vertex_base(lists@, i) + lists@[i].vertex_count
        } by {
            assert(mesh.indices@ == out_indices(lists@));
        }
    }
    mesh
}

} // verus!

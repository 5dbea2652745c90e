//! Pipeline-layout helpers: finding the bind group that carries a named
//! binding, and the UI pipeline's vertex attribute layout, whose stride is
//! exactly the packed vertex stride the buffer assembly writes.

use crate::draw::VERTEX_STRIDE;
use vstd::prelude::*;

verus! {

/// One bind group of a compiled pipeline layout: its group index and the
/// names of the bindings it carries.
pub struct BindGroupInfo {
    /// The bind group's index in the pipeline layout.
    pub index: u32,
    /// The names of its bindings.
    pub binding_names: Vec<String>,
}

/// A compiled pipeline layout, as the list of its bind groups.
pub struct PipelineLayoutInfo {
    /// The layout's bind groups, in order.
    pub bind_groups: Vec<BindGroupInfo>,
}

/// The group carries a binding named `name`.
pub open spec fn group_has_binding(g: BindGroupInfo, name: Seq<char>) -> bool {
    exists|j: int| 0 <= j < g.binding_names@.len() && (#[trigger] g.binding_names@[j])@ == name
}

/// The index of the first bind group that carries a binding named
/// `binding_name`, or nothing when no group does.
pub fn find_bind_group_by_binding_name(layout: &PipelineLayoutInfo, binding_name: &String) -> (r:
    Option<usize>)
    ensures
        match r {
            Some(i) => {
                &&& i < layout.bind_groups@.len()
                &&& group_has_binding(layout.bind_groups@[i as int], binding_name@)
                &&& forall|g: int|
                    0 <= g < i ==> !group_has_binding(
                        #[trigger] layout.bind_groups@[g],
                        binding_name@,
                    )
            },
            None => forall|g: int|
                0 <= g < layout.bind_groups@.len() ==> !group_has_binding(
                    #[trigger] layout.bind_groups@[g],
                    binding_name@,
                ),
        },
{
    let n = layout.bind_groups.len();
    let mut i: usize = 0;
    while i < n
        invariant
            i <= n,
            n == layout.bind_groups@.len(),
            forall|g: int|
                0 <= g < i ==> !group_has_binding(#[trigger] layout.bind_groups@[g], binding_name@),
        decreases n - i,
    {
        let group = &layout.bind_groups[i];
        let m = group.binding_names.len();
        let mut j: usize = 0;
        while j < m
            invariant
                j <= m,
                m == group.binding_names@.len(),
                i < n,
                n == layout.bind_groups@.len(),
                *group == layout.bind_groups@[i as int],
                forall|g: int|
                    0 <= g < i ==> !group_has_binding(
                        #[trigger] layout.bind_groups@[g],
                        binding_name@,
                    ),
                forall|t: int| 0 <= t < j ==> (#[trigger] group.binding_names@[t])@ != binding_name@,
            decreases m - j,
        {
            if group.binding_names[j] == *binding_name {
                proof {
                    assert(group.binding_names@[j as int]@ == binding_name@);
                    assert(group_has_binding(layout.bind_groups@[i as int], binding_name@));
                }
                return Some(i);
            }
            j = j + 1;
        }
        proof {
            assert forall|t: int|
                0 <= t < m implies (#[trigger] layout.bind_groups@[i as int].binding_names@[t])@
                != binding_name@ by {
                assert(group.binding_names@[t]@ != binding_name@);
            }
        }
        i = i + 1;
    }
    None
}

/// A vertex attribute's data format.
#[derive(Clone, Copy, Debug, PartialEq, Eq, Structural)]
pub enum VertexFormat {
    /// Two 32-bit scalars.
    Float2,
    /// Three 32-bit scalars.
    Float3,
    /// Four 32-bit scalars.
    Float4,
}

/// The byte size of a vertex format.
pub open spec fn format_size(f: VertexFormat) -> u64 {
    match f {
        VertexFormat::Float2 => 8,
        VertexFormat::Float3 => 12,
        VertexFormat::Float4 => 16,
    }
}

/// One attribute of the vertex layout.
#[derive(Clone, Copy, Debug, PartialEq, Eq, Structural)]
pub struct VertexAttribute {
    /// Byte offset of the attribute inside one vertex.
    pub offset: u64,
    /// The attribute's format.
    pub format: VertexFormat,
    /// The shader location the attribute binds to.
    pub shader_location: u32,
}

/// The UI pipeline's vertex attributes — position, texture coordinates,
/// color, packed in that order at locations 0, 1, 2 — and their stride,
/// which is exactly the packed vertex stride the buffer assembly writes.
pub fn megaui_vertex_layout() -> (r: (Vec<VertexAttribute>, u64))
    ensures
        r.0@.len() == 3,
        r.0@[0] == (VertexAttribute {
            offset: 0,
            format: VertexFormat::Float3,
            shader_location: 0,
        }),
        r.0@[1] == (VertexAttribute {
            offset: 12,
            format: VertexFormat::Float2,
            shader_location: 1,
        }),
        r.0@[2] == (VertexAttribute {
            offset: 20,
            format: VertexFormat::Float4,
            shader_location: 2,
        }),
        r.0@[1].offset == format_size(r.0@[0].format),
        r.0@[2].offset == format_size(r.0@[0].format) + format_size(r.0@[1].format),
        r.1 == format_size(r.0@[0].format) + format_size(r.0@[1].format) + format_size(
            r.0@[2].format,
        ),
        r.1 == VERTEX_STRIDE as u64,
{
    let mut attrs: Vec<VertexAttribute> = Vec::new();
    attrs.push(VertexAttribute { offset: 0, format: VertexFormat::Float3, shader_location: 0 });
    attrs.push(VertexAttribute { offset: 12, format: VertexFormat::Float2, shader_location: 1 });
    attrs.push(VertexAttribute { offset: 20, format: VertexFormat::Float4, shader_location: 2 });
    (attrs, 36)
}

} // verus!

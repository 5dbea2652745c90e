use megaui_bridge::draw::{assemble_buffers, ClipRect, DrawListData, VERTEX_STRIDE};
use megaui_bridge::handle::{HandleKind, TexHandle};
use megaui_bridge::registry::TextureRegistry;

const FONT: u64 = 999;

fn list(vertex_count: usize, indices: Vec<u16>, texture: Option<u32>) -> DrawListData {
    DrawListData {
        vertex_data: vec![0u8; vertex_count * VERTEX_STRIDE],
        vertex_count,
        indices,
        texture,
        clipping_zone: None,
    }
}

#[test]
fn empty_frame_yields_empty_buffers() {
    let lists: Vec<DrawListData> = Vec::new();
    let reg = TextureRegistry::new();
    let mesh = assemble_buffers(&lists, &reg, FONT);
    assert_eq!(mesh.vertex_bytes.len(), 0);
    assert_eq!(mesh.indices.len(), 0);
    assert_eq!(mesh.commands.len(), 0);
}

#[test]
fn indices_are_shifted_by_running_vertex_count() {
    let reg = TextureRegistry::new();
    let lists = vec![
        list(3, vec![0, 1, 2], None),
        list(4, vec![0, 1, 2, 2, 3, 0], None),
        list(2, vec![1, 0], None),
    ];
    let mesh = assemble_buffers(&lists, &reg, FONT);
    // First list: base 0; second: base 3; third: base 7.
    assert_eq!(mesh.indices, vec![0, 1, 2, 3, 4, 5, 5, 6, 3, 8, 7]);
    assert_eq!(mesh.vertex_bytes.len(), (3 + 4 + 2) * VERTEX_STRIDE);
}

#[test]
fn each_segment_stays_inside_its_lists_vertices() {
    let reg = TextureRegistry::new();
    let lists = vec![list(3, vec![0, 2, 1], None), list(5, vec![4, 0, 3], None)];
    let mesh = assemble_buffers(&lists, &reg, FONT);
    // Segment of list 0 lies in [0, 3); segment of list 1 lies in [3, 8).
    for i in 0..3 {
        assert!(mesh.indices[i] < 3);
    }
    for i in 3..6 {
        assert!(mesh.indices[i] >= 3 && mesh.indices[i] < 8);
    }
}

#[test]
fn commands_carry_index_counts_not_vertex_counts() {
    let reg = TextureRegistry::new();
    let lists = vec![list(4, vec![0, 1, 2, 2, 3, 0], None)];
    let mesh = assemble_buffers(&lists, &reg, FONT);
    assert_eq!(mesh.commands.len(), 1);
    assert_eq!(mesh.commands[0].vertices_count, 6);
}

#[test]
fn missing_selector_resolves_to_font_atlas() {
    let reg = TextureRegistry::new();
    let mesh = assemble_buffers(&vec![list(3, vec![0, 1, 2], None)], &reg, FONT);
    assert_eq!(mesh.commands[0].texture_handle, Some(FONT));
}

#[test]
fn registered_selector_resolves_to_its_handle() {
    let mut reg = TextureRegistry::new();
    reg.set_megaui_texture(7, TexHandle { id: 123, kind: HandleKind::Borrowing });
    let mesh = assemble_buffers(&vec![list(3, vec![0, 1, 2], Some(7))], &reg, FONT);
    assert_eq!(mesh.commands[0].texture_handle, Some(123));
}

#[test]
fn unregistered_selector_resolves_to_nothing() {
    let reg = TextureRegistry::new();
    let mesh = assemble_buffers(&vec![list(3, vec![0, 1, 2], Some(7))], &reg, FONT);
    assert_eq!(mesh.commands[0].texture_handle, None);
}

#[test]
fn vertex_bytes_are_concatenated_in_list_order() {
    let reg = TextureRegistry::new();
    let mut a = list(1, vec![0], None);
    a.vertex_data = vec![1u8; VERTEX_STRIDE];
    let mut b = list(1, vec![0], None);
    b.vertex_data = vec![2u8; VERTEX_STRIDE];
    let mesh = assemble_buffers(&vec![a, b], &reg, FONT);
    assert_eq!(&mesh.vertex_bytes[..VERTEX_STRIDE], &[1u8; VERTEX_STRIDE][..]);
    assert_eq!(&mesh.vertex_bytes[VERTEX_STRIDE..], &[2u8; VERTEX_STRIDE][..]);
}

#[test]
fn clipping_zone_is_carried_through() {
    let reg = TextureRegistry::new();
    let mut l = list(3, vec![0, 1, 2], None);
    l.clipping_zone = Some(ClipRect { x: 20, y: 20, w: 200, h: 200 });
    let mesh = assemble_buffers(&vec![l], &reg, FONT);
    assert_eq!(mesh.commands[0].clipping_zone, Some(ClipRect { x: 20, y: 20, w: 200, h: 200 }));
}

#[test]
fn assembly_handles_the_largest_frame_the_index_type_admits() {
    let reg = TextureRegistry::new();
    let count: usize = 0xFFFF;
    let l = DrawListData {
        vertex_data: vec![0u8; count * VERTEX_STRIDE],
        vertex_count: count,
        indices: vec![0, (count - 1) as u16],
        texture: None,
        clipping_zone: None,
    };
    let mesh = assemble_buffers(&vec![l], &reg, FONT);
    assert_eq!(mesh.indices, vec![0, 0xFFFE]);
    assert_eq!(mesh.vertex_bytes.len(), count * VERTEX_STRIDE);
}

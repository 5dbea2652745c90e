use megaui_bridge::draw::{ClipRect, DrawCommand};
use megaui_bridge::handle::{TextureDescriptor, TextureDimension};
use megaui_bridge::pass::{record_pass, PassAction, PhysicalExtent};
use megaui_bridge::textures::{TextureResource, TextureStore};
use megaui_bridge::vecmap::VecMap;

const WINDOW: PhysicalExtent = PhysicalExtent { width: 1280, height: 720 };

fn desc() -> TextureDescriptor {
    TextureDescriptor { width: 64, height: 64, depth: 1, dimension: TextureDimension::D2, format: 0 }
}

fn store_with(handles: &[(u64, u64)]) -> TextureStore {
    let mut store: TextureStore = VecMap::new();
    for &(h, bind_group) in handles {
        store.insert(h, TextureResource {
            descriptor: desc(),
            texture_id: h * 10,
            sampler_id: h * 10 + 1,
            bind_group_id: bind_group,
        });
    }
    store
}

fn command(count: usize, texture: Option<u64>, clip: Option<ClipRect>) -> DrawCommand {
    DrawCommand { vertices_count: count, texture_handle: texture, clipping_zone: clip }
}

#[test]
fn empty_frame_still_opens_the_pass() {
    let store = store_with(&[]);
    let actions = record_pass(&Vec::new(), &store, WINDOW, 3, 1, 2, &Vec::new());
    assert_eq!(actions, vec![
        PassAction::SetPipeline,
        PassAction::SetVertexBuffer { buffer_id: 1 },
        PassAction::SetIndexBuffer { buffer_id: 2 },
        PassAction::SetTransformBindGroup { bind_group_id: 3 },
    ]);
}

#[test]
fn single_font_draw_binds_once_plus_keep_alive_touch() {
    let store = store_with(&[(1, 77)]);
    let commands = vec![command(6, Some(1), None)];
    let actions = record_pass(&commands, &store, WINDOW, 3, 1, 2, &vec![1]);
    assert_eq!(actions[4], PassAction::SetTextureBindGroup { bind_group_id: 77 });
    assert_eq!(actions[5], PassAction::SetTextureBindGroup { bind_group_id: 77 });
    assert_eq!(actions[6], PassAction::SetScissor { x: 0, y: 0, w: 1280, h: 720 });
    assert_eq!(actions[7], PassAction::DrawIndexed { start: 0, end: 6 });
    assert_eq!(actions.len(), 8);
}

#[test]
fn skipped_command_still_advances_the_vertex_offset() {
    let store = store_with(&[(1, 77)]);
    let commands = vec![
        command(6, Some(50), None),  // not realised: skipped
        command(9, Some(1), None),
    ];
    let actions = record_pass(&commands, &store, WINDOW, 3, 1, 2, &Vec::new());
    // The skipped command leaves no action, but the next draw starts after
    // its index range.
    assert_eq!(actions.len(), 7);
    assert_eq!(actions[6], PassAction::DrawIndexed { start: 6, end: 15 });
}

#[test]
fn unresolved_registry_lookup_is_skipped_too() {
    let store = store_with(&[(1, 77)]);
    let commands = vec![command(6, None, None), command(3, Some(1), None)];
    let actions = record_pass(&commands, &store, WINDOW, 3, 1, 2, &Vec::new());
    assert_eq!(actions.len(), 7);
    assert_eq!(actions[6], PassAction::DrawIndexed { start: 6, end: 9 });
}

#[test]
fn clipping_zones_become_scissors_scaled_to_physical_pixels() {
    // Two clip rectangles in UI points at scale factor 2: the shell
    // multiplies before handing them over, as the host scale is not known
    // to the pass.
    let scale: f32 = 2.0;
    let zones = [(10.0f32, 10.0f32, 100.0f32, 100.0f32), (200.0, 200.0, 50.0, 50.0)];
    let clips: Vec<ClipRect> = zones
        .iter()
        .map(|&(x, y, w, h)| ClipRect {
            x: (x * scale) as u32,
            y: (y * scale) as u32,
            w: (w * scale) as u32,
            h: (h * scale) as u32,
        })
        .collect();
    let store = store_with(&[(1, 77)]);
    let commands = vec![
        command(3, Some(1), Some(clips[0])),
        command(3, Some(1), Some(clips[1])),
    ];
    let actions = record_pass(&commands, &store, WINDOW, 3, 1, 2, &Vec::new());
    assert_eq!(actions[5], PassAction::SetScissor { x: 20, y: 20, w: 200, h: 200 });
    assert_eq!(actions[8], PassAction::SetScissor { x: 400, y: 400, w: 100, h: 100 });
}

#[test]
fn every_resident_texture_is_touched_once_before_the_draws() {
    let store = store_with(&[(1, 71), (2, 72)]);
    let actions = record_pass(&Vec::new(), &store, WINDOW, 3, 1, 2, &vec![1, 2]);
    assert_eq!(actions.len(), 6);
    assert_eq!(actions[4], PassAction::SetTextureBindGroup { bind_group_id: 71 });
    assert_eq!(actions[5], PassAction::SetTextureBindGroup { bind_group_id: 72 });
}

#[test]
fn dropped_texture_is_never_bound() {
    // A texture realised on an earlier frame was dropped: it is neither in
    // the store nor in the keep-alive list, so no action binds its group.
    let store = store_with(&[(1, 77)]);
    let commands = vec![command(6, Some(50), None), command(3, Some(1), None)];
    let actions = record_pass(&commands, &store, WINDOW, 3, 1, 2, &vec![1]);
    for a in &actions {
        assert_ne!(*a, PassAction::SetTextureBindGroup { bind_group_id: 505 });
    }
}

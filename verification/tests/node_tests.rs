use megaui_bridge::handle::{HandleKind, TexHandle, TextureDescriptor, TextureDimension};
use megaui_bridge::node::{AssetEvent, MegaUiNode};
use megaui_bridge::registry::TextureRegistry;
use megaui_bridge::textures::{copy_row_pitch, AssetCatalog, TextureResource};
use megaui_bridge::vecmap::VecMap;

const FONT: u64 = 1;

fn desc(width: u32, height: u32) -> TextureDescriptor {
    TextureDescriptor { width, height, depth: 1, dimension: TextureDimension::D2, format: 0 }
}

fn resource(seed: u64, d: TextureDescriptor) -> TextureResource {
    TextureResource {
        descriptor: d,
        texture_id: seed,
        sampler_id: seed + 1,
        bind_group_id: seed + 2,
    }
}

fn strong(id: u64) -> TexHandle {
    TexHandle { id, kind: HandleKind::Owning }
}

#[test]
fn removed_asset_releases_resources_exactly_once() {
    let mut node = MegaUiNode::new(1, FONT);
    let mut reg = TextureRegistry::new();
    reg.set_megaui_texture(7, strong(50));
    node.note_texture_created(50, resource(500, desc(64, 64)));

    let assets: AssetCatalog = VecMap::new();
    let events = vec![AssetEvent::Removed { handle_id: 50 }, AssetEvent::Removed {
        handle_id: 50,
    }];
    let out = node.process_asset_events(&mut reg, &events, &assets);

    // Released once, with the realised GPU ids; the registry entry is purged.
    assert_eq!(out.releases.len(), 1);
    assert_eq!(out.releases[0].handle_id, 50);
    assert_eq!(out.releases[0].texture_id, 500);
    assert_eq!(out.releases[0].sampler_id, 501);
    assert!(!node.texture_resources.contains_key(50));
    assert_eq!(reg.get(7), None);

    // A later explicit drop finds nothing: nothing is freed twice.
    assert!(node.remove_texture(50).is_none());
}

#[test]
fn removal_event_for_unrealised_handle_is_skipped() {
    let mut node = MegaUiNode::new(1, FONT);
    let mut reg = TextureRegistry::new();
    reg.set_megaui_texture(3, strong(60));

    let assets: AssetCatalog = VecMap::new();
    let events = vec![AssetEvent::Removed { handle_id: 60 }];
    let out = node.process_asset_events(&mut reg, &events, &assets);

    assert_eq!(out.releases.len(), 0);
    // The registry keeps its entry: only events for realised handles act.
    assert_eq!(reg.get(3), Some(strong(60)));
}

#[test]
fn modified_asset_with_same_descriptor_is_copied_in_place() {
    let mut node = MegaUiNode::new(1, FONT);
    let mut reg = TextureRegistry::new();
    node.note_texture_created(50, resource(500, desc(64, 64)));

    let mut assets: AssetCatalog = VecMap::new();
    assets.insert(50, desc(64, 64));
    let events = vec![AssetEvent::Modified { handle_id: 50 }];
    let out = node.process_asset_events(&mut reg, &events, &assets);

    assert_eq!(out.releases.len(), 0);
    assert_eq!(out.copies.len(), 1);
    assert_eq!(out.copies[0].handle_id, 50);
    assert_eq!(out.copies[0].texture_id, 500);
    assert!(node.texture_resources.contains_key(50));
}

#[test]
fn modified_asset_with_new_extent_is_dropped_for_recreation() {
    let mut node = MegaUiNode::new(1, FONT);
    let mut reg = TextureRegistry::new();
    reg.set_megaui_texture(7, strong(50));
    node.note_texture_created(50, resource(500, desc(64, 64)));

    let mut assets: AssetCatalog = VecMap::new();
    assets.insert(50, desc(128, 128));
    let events = vec![AssetEvent::Modified { handle_id: 50 }];
    let out = node.process_asset_events(&mut reg, &events, &assets);

    // Frame N: the resource is dropped, nothing is copied.
    assert_eq!(out.copies.len(), 0);
    assert_eq!(out.releases.len(), 1);
    assert!(!node.texture_resources.contains_key(50));

    // Frame N+1: the creation pass realises it afresh from the new
    // descriptor.
    let (creates, rebinds) = node.plan_texture_creations(&reg, &assets);
    assert_eq!(rebinds.len(), 0);
    assert_eq!(creates.len(), 1);
    assert_eq!(creates[0].handle_id, 50);
    assert_eq!(creates[0].descriptor, desc(128, 128));
}

#[test]
fn modification_followed_by_removal_is_ignored() {
    let mut node = MegaUiNode::new(1, FONT);
    let mut reg = TextureRegistry::new();
    node.note_texture_created(50, resource(500, desc(64, 64)));

    let mut assets: AssetCatalog = VecMap::new();
    assets.insert(50, desc(64, 64));
    let events = vec![AssetEvent::Modified { handle_id: 50 }, AssetEvent::Removed {
        handle_id: 50,
    }];
    let out = node.process_asset_events(&mut reg, &events, &assets);

    assert_eq!(out.copies.len(), 0);
    assert_eq!(out.releases.len(), 1);
}

#[test]
fn late_loading_texture_is_skipped_until_loaded() {
    let mut node = MegaUiNode::new(1, FONT);
    let mut reg = TextureRegistry::new();
    reg.set_megaui_texture(3, strong(70));

    // Frames while the asset loads: nothing to create yet.
    let assets: AssetCatalog = VecMap::new();
    for _ in 0..3 {
        let (creates, rebinds) = node.plan_texture_creations(&reg, &assets);
        assert_eq!(creates.len(), 0);
        assert_eq!(rebinds.len(), 0);
    }

    // The asset loads: the next frame realises it.
    let mut loaded: AssetCatalog = VecMap::new();
    loaded.insert(70, desc(64, 64));
    let (creates, rebinds) = node.plan_texture_creations(&reg, &loaded);
    assert_eq!(rebinds.len(), 0);
    assert_eq!(creates.len(), 1);
    assert_eq!(creates[0].handle_id, 70);

    node.note_texture_created(70, resource(700, desc(64, 64)));
    let (creates2, rebinds2) = node.plan_texture_creations(&reg, &loaded);
    assert_eq!(creates2.len(), 0);
    assert_eq!(rebinds2, vec![70]);
}

#[test]
fn gc_drops_unreferenced_textures_but_never_the_font_atlas() {
    let mut node = MegaUiNode::new(1, FONT);
    let mut reg = TextureRegistry::new();
    node.note_texture_created(FONT, resource(10, desc(512, 64)));
    node.note_texture_created(50, resource(500, desc(64, 64)));
    reg.set_megaui_texture(7, strong(50));

    // Both the font atlas and the referenced texture survive.
    let released = node.remove_unused_textures(&reg);
    assert_eq!(released.len(), 0);

    // Dropping the registry entry leaves the texture unreferenced; the
    // next garbage collection frees it, while the font atlas stays.
    reg.remove_megaui_texture(7);
    let released = node.remove_unused_textures(&reg);
    assert_eq!(released.len(), 1);
    assert_eq!(released[0].handle_id, 50);
    assert!(node.texture_resources.contains_key(FONT));
    assert!(!node.texture_resources.contains_key(50));
}

#[test]
fn buffers_are_replaced_whole_every_frame() {
    let mut node = MegaUiNode::new(1, FONT);
    let freed = node.replace_buffers(11, 12);
    assert_eq!(freed, (None, None));
    let freed = node.replace_buffers(21, 22);
    assert_eq!(freed, (Some(11), Some(12)));
    assert_eq!(node.vertex_buffer, Some(21));
    assert_eq!(node.index_buffer, Some(22));
}

#[test]
fn transform_bind_group_is_kept_once_built() {
    let mut node = MegaUiNode::new(1, FONT);
    assert_eq!(node.ensure_transform_bind_group(5), 5);
    assert_eq!(node.ensure_transform_bind_group(9), 5);
}

#[test]
fn reconcile_handles_a_whole_texture_lifecycle_frame() {
    let mut node = MegaUiNode::new(1, FONT);
    let mut reg = TextureRegistry::new();
    reg.set_megaui_texture(7, strong(50));
    reg.set_megaui_texture(8, strong(60));
    node.note_texture_created(FONT, resource(10, desc(512, 64)));
    node.note_texture_created(50, resource(500, desc(64, 64)));
    node.note_texture_created(99, resource(990, desc(32, 32)));  // orphaned

    let mut assets: AssetCatalog = VecMap::new();
    assets.insert(FONT, desc(512, 64));
    assets.insert(60, desc(16, 16));
    let events = vec![AssetEvent::Removed { handle_id: 50 }];
    let out = node.reconcile_textures(&mut reg, &events, &assets);

    // The removed texture and the orphaned one are released, each once.
    assert_eq!(out.releases.len(), 2);
    assert!(out.releases.iter().any(|r| r.handle_id == 50 && r.texture_id == 500));
    assert!(out.releases.iter().any(|r| r.handle_id == 99 && r.texture_id == 990));
    assert!(!node.texture_resources.contains_key(50));
    assert!(!node.texture_resources.contains_key(99));
    assert_eq!(reg.get(7), None);

    // The referenced loaded texture is planned; the font atlas survives
    // and only needs its bind group re-created.
    assert_eq!(out.creates.len(), 1);
    assert_eq!(out.creates[0].handle_id, 60);
    assert_eq!(out.rebinds, vec![FONT]);
    assert!(node.texture_resources.contains_key(FONT));
}

#[test]
fn copy_row_pitch_is_exact_and_checked() {
    assert_eq!(copy_row_pitch(4, 256), Some(1024));
    assert_eq!(copy_row_pitch(0, 256), Some(0));
    assert_eq!(copy_row_pitch(u32::MAX, 2), None);
}

#[test]
fn created_events_and_unrealised_handles_leave_everything_untouched() {
    let mut node = MegaUiNode::new(1, FONT);
    let mut reg = TextureRegistry::new();
    reg.set_megaui_texture(7, strong(50));
    node.note_texture_created(50, resource(500, desc(64, 64)));

    let mut assets: AssetCatalog = VecMap::new();
    assets.insert(50, desc(64, 64));
    let events = vec![
        AssetEvent::Created { handle_id: 50 },
        AssetEvent::Created { handle_id: 77 },
        AssetEvent::Modified { handle_id: 77 },
        AssetEvent::Removed { handle_id: 77 },
    ];
    let out = node.process_asset_events(&mut reg, &events, &assets);

    assert_eq!(out.releases.len(), 0);
    assert_eq!(out.copies.len(), 0);
    assert!(node.texture_resources.contains_key(50));
    assert_eq!(node.texture_resources.get(50), Some(resource(500, desc(64, 64))));
    assert_eq!(reg.get(7), Some(strong(50)));
}

#[test]
fn reconcile_keeps_undisturbed_referenced_textures_and_their_registry_entries() {
    let mut node = MegaUiNode::new(1, FONT);
    let mut reg = TextureRegistry::new();
    reg.set_megaui_texture(7, strong(50));
    node.note_texture_created(50, resource(500, desc(64, 64)));

    let mut assets: AssetCatalog = VecMap::new();
    assets.insert(50, desc(64, 64));
    let events = vec![AssetEvent::Modified { handle_id: 50 }];
    let out = node.reconcile_textures(&mut reg, &events, &assets);

    // The compatible modification is copied in place; nothing is dropped,
    // the registry entry survives, and nothing needs re-creating.
    assert_eq!(out.releases.len(), 0);
    assert_eq!(out.copies.len(), 1);
    assert_eq!(out.copies[0].handle_id, 50);
    assert_eq!(out.creates.len(), 0);
    assert!(node.texture_resources.contains_key(50));
    assert_eq!(reg.get(7), Some(strong(50)));
}

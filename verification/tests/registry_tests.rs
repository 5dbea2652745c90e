use megaui_bridge::handle::{HandleKind, TexHandle};
use megaui_bridge::registry::TextureRegistry;

fn strong(id: u64) -> TexHandle {
    TexHandle { id, kind: HandleKind::Owning }
}

fn weak(id: u64) -> TexHandle {
    TexHandle { id, kind: HandleKind::Borrowing }
}

#[test]
fn set_then_get_returns_handle() {
    let mut reg = TextureRegistry::new();
    reg.set_megaui_texture(7, strong(100));
    assert_eq!(reg.get(7), Some(strong(100)));
}

#[test]
fn set_replaces_existing_entry() {
    let mut reg = TextureRegistry::new();
    reg.set_megaui_texture(7, strong(100));
    reg.set_megaui_texture(7, weak(200));
    assert_eq!(reg.get(7), Some(weak(200)));
}

#[test]
fn remove_yields_absence() {
    let mut reg = TextureRegistry::new();
    reg.set_megaui_texture(7, strong(100));
    reg.remove_megaui_texture(7);
    assert_eq!(reg.get(7), None);
}

#[test]
fn remove_is_idempotent() {
    let mut reg = TextureRegistry::new();
    reg.set_megaui_texture(1, strong(10));
    reg.remove_megaui_texture(1);
    reg.remove_megaui_texture(1);
    reg.remove_megaui_texture(2);
    assert_eq!(reg.get(1), None);
    assert_eq!(reg.get(2), None);
}

#[test]
fn remove_handle_purges_every_entry_for_that_asset() {
    let mut reg = TextureRegistry::new();
    reg.set_megaui_texture(1, strong(100));
    reg.set_megaui_texture(2, weak(100));
    reg.set_megaui_texture(3, strong(200));
    reg.remove_handle(100);
    assert_eq!(reg.get(1), None);
    assert_eq!(reg.get(2), None);
    assert_eq!(reg.get(3), Some(strong(200)));
}

#[test]
fn contains_handle_sees_values_not_ids() {
    let mut reg = TextureRegistry::new();
    reg.set_megaui_texture(5, strong(42));
    assert!(reg.contains_handle(42));
    assert!(!reg.contains_handle(5));
}

#[test]
fn handle_ids_lists_all_stored_assets() {
    let mut reg = TextureRegistry::new();
    reg.set_megaui_texture(1, strong(10));
    reg.set_megaui_texture(2, weak(20));
    let ids = reg.handle_ids();
    assert_eq!(ids.len(), 2);
    assert!(ids.contains(&10));
    assert!(ids.contains(&20));
}

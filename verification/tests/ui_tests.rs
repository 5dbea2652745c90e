//! End-to-end checks against the real UI crate: windows drawn through the
//! context produce draw lists whose assembly satisfies the shared-buffer
//! contract.

use megaui_bridge::context::{effective_params, MegaUiContext, WindowParams};
use megaui_bridge::draw::{assemble_buffers, ClipRect, DrawListData, VERTEX_STRIDE};
use megaui_bridge::handle::{HandleKind, TexHandle};
use megaui_bridge::input::{process_input, CharInput, HeldKeys};

const FONT: TexHandle = TexHandle { id: 1, kind: HandleKind::Owning };

/// What the rendering shell does each frame: flatten a UI draw list's
/// vertices into packed bytes and plain values.
fn convert(list: &megaui::DrawList, scale: f32) -> DrawListData {
    let mut vertex_data: Vec<u8> = Vec::with_capacity(list.vertices.len() * VERTEX_STRIDE);
    for v in &list.vertices {
        for f in v.pos.iter().chain(v.uv.iter()).chain(v.color.iter()) {
            vertex_data.extend_from_slice(&f.to_le_bytes());
        }
    }
    DrawListData {
        vertex_data,
        vertex_count: list.vertices.len(),
        indices: list.indices.clone(),
        texture: list.texture,
        clipping_zone: list.clipping_zone.map(|r| ClipRect {
            x: (r.x * scale) as u32,
            y: (r.y * scale) as u32,
            w: (r.w * scale) as u32,
            h: (r.h * scale) as u32,
        }),
    }
}

#[test]
fn a_window_with_a_label_assembles_into_font_draws() {
    let mut ctx = MegaUiContext::new(megaui::Ui::new(), FONT);
    // The UI renders the windows that were active on the previous frame,
    // so draw across two frames before harvesting.
    for _ in 0..2 {
        ctx.draw_window(
            1,
            megaui::Vector2::new(5.0, 5.0),
            megaui::Vector2::new(200.0, 100.0),
            Some(WindowParams { label: "Hello".to_string(), ..WindowParams::default() }),
            |ui| {
                ui.label(None, "Hello world!");
            },
        );
        ctx.render_draw_lists();
        ctx.ui.new_frame(1.0 / 60.0);
        ctx.draw_window(
            1,
            megaui::Vector2::new(5.0, 5.0),
            megaui::Vector2::new(200.0, 100.0),
            Some(WindowParams { label: "Hello".to_string(), ..WindowParams::default() }),
            |ui| {
                ui.label(None, "Hello world!");
            },
        );
    }
    ctx.render_draw_lists();
    assert!(!ctx.ui_draw_lists.is_empty());

    let lists: Vec<DrawListData> = ctx.ui_draw_lists.iter().map(|l| convert(l, 1.0)).collect();
    let mesh = assemble_buffers(&lists, &ctx.megaui_textures, FONT.id);

    // Every batch of a text-only window samples the font atlas.
    assert_eq!(mesh.commands.len(), lists.len());
    for c in &mesh.commands {
        assert_eq!(c.texture_handle, Some(FONT.id));
    }

    // The shared buffers carry every list, indices rewritten into each
    // list's own vertex range.
    let total_vertices: usize = lists.iter().map(|l| l.vertex_count).sum();
    let total_indices: usize = lists.iter().map(|l| l.indices.len()).sum();
    assert_eq!(mesh.vertex_bytes.len(), total_vertices * VERTEX_STRIDE);
    assert_eq!(mesh.indices.len(), total_indices);
    let mut base: usize = 0;
    let mut at: usize = 0;
    for l in &lists {
        for _ in 0..l.indices.len() {
            let v = mesh.indices[at] as usize;
            assert!(base <= v && v < base + l.vertex_count);
            at += 1;
        }
        base += l.vertex_count;
    }
}

#[test]
fn empty_ui_assembles_into_nothing() {
    let mut ctx = MegaUiContext::new(megaui::Ui::new(), FONT);
    ctx.render_draw_lists();
    let lists: Vec<DrawListData> = ctx.ui_draw_lists.iter().map(|l| convert(l, 1.0)).collect();
    let mesh = assemble_buffers(&lists, &ctx.megaui_textures, FONT.id);
    assert_eq!(mesh.commands.len(), 0);
    assert_eq!(mesh.vertex_bytes.len(), 0);
    assert_eq!(mesh.indices.len(), 0);
}

#[test]
fn registry_reads_back_through_the_context() {
    let mut ctx = MegaUiContext::new(megaui::Ui::new(), FONT);
    let user = TexHandle { id: 50, kind: HandleKind::Borrowing };
    ctx.set_megaui_texture(7, user);
    assert_eq!(ctx.megaui_textures.get(7), Some(user));
    ctx.remove_megaui_texture(7);
    assert_eq!(ctx.megaui_textures.get(7), None);
    ctx.remove_megaui_texture(7);
    assert_eq!(ctx.megaui_textures.get(7), None);
}

#[test]
fn planned_characters_reach_the_ui() {
    let mut ctx = MegaUiContext::new(megaui::Ui::new(), FONT);
    let chars = vec![
        CharInput { character: 'h', primary: true },
        CharInput { character: '\u{1b}', primary: true },
        CharInput { character: 'i', primary: true },
    ];
    let plan = process_input(true, &Vec::new(), false, false, &chars, HeldKeys::default(), false, false, false, false);
    assert_eq!(plan.chars, vec!['h', 'i']);
    ctx.forward_chars(&plan);
}

#[test]
fn omitted_window_params_fall_back_to_the_defaults() {
    let p = effective_params(None);
    assert_eq!(p, WindowParams::default());
    let custom = WindowParams {
        label: "Tools".to_string(),
        movable: false,
        close_button: true,
        titlebar: false,
    };
    assert_eq!(effective_params(Some(custom.clone())), custom);
}

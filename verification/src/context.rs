//! The context store: the UI instance, the font-atlas handle, the
//! user-visible texture registry, and the per-frame draw-list storage.  It
//! is meant for single-threaded use: the UI instance cannot be shared
//! across threads, so the host must pin the store to one thread.

use crate::handle::TexHandle;
use crate::input::InputPlan;
use crate::registry::TextureRegistry;
use crate::ui_bindings::{ui_char_event, ui_render, ui_show_window};
use vstd::prelude::*;

verus! {

/// Parameters of a window drawn through [`MegaUiContext::draw_window`].
#[derive(Debug, Clone, Eq, PartialEq)]
pub struct WindowParams {
    /// Window label (empty by default).
    pub label: String,
    /// Whether the window is movable (on by default).
    pub movable: bool,
    /// Whether the window has a close button (off by default).
    pub close_button: bool,
    /// Whether the window has a titlebar (on by default).
    pub titlebar: bool,
}

/// The parameters a window is drawn with: the ones supplied, or the
/// defaults (empty label, movable, titlebar, no close button) when none
/// were.
pub fn effective_params(params: Option<WindowParams>) -> (r: WindowParams)
    ensures
        params matches Some(p) ==> r == p,
        params is None ==> r.label@ == Seq::<char>::empty() && r.movable && r.titlebar
            && !r.close_button,
{
    match params {
        Some(p) => p,
        None => WindowParams {
            label: String::new(),
            movable: true,
            close_button: false,
            titlebar: true,
        },
    }
}

impl Default for WindowParams {
    /// The defaults: empty label, movable, no close button, titlebar.
    fn default() -> (r: WindowParams)
        ensures
            r.label@ == Seq::<char>::empty(),
            r.movable,
            !r.close_button,
            r.titlebar,
    {
        WindowParams { label: String::new(), movable: true, close_button: false, titlebar: true }
    }
}

/// The store holding the UI instance and everything user code and the
/// render node share about it.
pub struct MegaUiContext {
    /// The UI instance.
    pub ui: megaui::Ui,
    /// Storage for the draw lists harvested each frame; the render node
    /// swaps it out, assembles buffers, and swaps it back to reuse the
    /// allocation.
    pub ui_draw_lists: Vec<megaui::DrawList>,
    /// Strong handle to the engine texture asset holding the font atlas.
    pub font_texture: TexHandle,
    /// The user-visible registry mapping `u32` ids to texture handles.
    pub megaui_textures: TextureRegistry,
}

impl MegaUiContext {
    /// The registry's invariant, carried by every context.
    pub open spec fn wf(self) -> bool {
        self.megaui_textures.wf()
    }

    /// The registry's contents.
    pub open spec fn registry(self) -> Map<u32, TexHandle> {
        self.megaui_textures@
    }

    /// A fresh context around a UI instance and its font-atlas handle,
    /// with an empty registry.
    pub fn new(ui: megaui::Ui, font_texture: TexHandle) -> (r: MegaUiContext)
        ensures
            r.wf(),
            r.ui == ui,
            r.registry() == Map::<u32, TexHandle>::empty(),
            r.font_texture == font_texture,
            r.ui_draw_lists@.len() == 0,
    {
        MegaUiContext {
            ui,
            ui_draw_lists: Vec::new(),
            font_texture,
            megaui_textures: TextureRegistry::new(),
        }
    }

    /// Draws a UI window with the given id, position and size, defaulting
    /// any parameters not supplied (empty label, movable, titlebar, no
    /// close button), and runs `f` with the UI to fill the window in.
    pub fn draw_window<F: FnOnce(&mut megaui::Ui)>(
        &mut self,
        id: u64,
        position: megaui::Vector2,
        size: megaui::Vector2,
        params: Option<WindowParams>,
        f: F,
    )
        requires
            old(self).wf(),
        ensures
            final(self).wf(),
            final(self).registry() == old(self).registry(),
            final(self).font_texture == old(self).font_texture,
            final(self).ui_draw_lists == old(self).ui_draw_lists,
    {
        let p = effective_params(params);
        ui_show_window(
            &mut self.ui,
            id,
            position,
            size,
            p.label.as_str(),
            p.movable,
            p.titlebar,
            p.close_button,
            f,
        );
    }

    /// Stores `texture` in the registry under the user-chosen `id`,
    /// replacing what was there.  The handle may be strong (the registry
    /// then pins the asset) or weak (the caller manages its lifetime).
    pub fn set_megaui_texture(&mut self, id: u32, texture: TexHandle)
        requires
            old(self).wf(),
        ensures
            final(self).wf(),
            final(self).registry() == old(self).registry().insert(id, texture),
            final(self).font_texture == old(self).font_texture,
            final(self).ui == old(self).ui,
            final(self).ui_draw_lists == old(self).ui_draw_lists,
    {
        self.megaui_textures.set_megaui_texture(id, texture);
    }

    /// Removes the registry entry stored under `id`; removing an absent id
    /// changes nothing, so repeated removal is idempotent.
    pub fn remove_megaui_texture(&mut self, id: u32)
        requires
            old(self).wf(),
        ensures
            final(self).wf(),
            final(self).registry() == old(self).registry().remove(id),
            final(self).font_texture == old(self).font_texture,
            final(self).ui == old(self).ui,
            final(self).ui_draw_lists == old(self).ui_draw_lists,
    {
        self.megaui_textures.remove_megaui_texture(id);
    }

    /// Purges every registry entry pointing at the asset with id
    /// `handle_id` (called when that asset is removed from the engine).
    pub fn remove_texture(&mut self, handle_id: u64)
        requires
            old(self).wf(),
        ensures
            final(self).wf(),
            final(self).registry() == Map::new(
                |k: u32| old(self).registry().contains_key(k) && old(self).registry()[k].id
                    != handle_id,
                |k: u32| old(self).registry()[k],
            ),
            final(self).font_texture == old(self).font_texture,
            final(self).ui == old(self).ui,
            final(self).ui_draw_lists == old(self).ui_draw_lists,
    {
        self.megaui_textures.remove_handle(handle_id);
    }

    /// Harvests this frame's draw lists: clears the storage and asks the
    /// UI to render every active window into it.
    pub fn render_draw_lists(&mut self)
        requires
            old(self).wf(),
        ensures
            final(self).wf(),
            final(self).registry() == old(self).registry(),
            final(self).font_texture == old(self).font_texture,
    {
        self.ui_draw_lists.clear();
        ui_render(&mut self.ui, &mut self.ui_draw_lists);
    }

    /// Feeds one frame's planned input into the UI: every forwarded
    /// character, with the plan's modifier state.  (The plan's key presses
    /// carry no UI key-code values and are fired by the shell.)
    pub fn forward_chars(&mut self, plan: &InputPlan)
        requires
            old(self).wf(),
        ensures
            final(self).wf(),
            final(self).registry() == old(self).registry(),
            final(self).font_texture == old(self).font_texture,
            final(self).ui_draw_lists == old(self).ui_draw_lists,
    {
        let n = plan.chars.len();
        let mut i: usize = 0;
        while i < n
            invariant
                i <= n,
                n == plan.chars@.len(),
                self.wf(),
                self.megaui_textures == old(self).megaui_textures,
                self.font_texture == old(self).font_texture,
                self.ui_draw_lists == old(self).ui_draw_lists,
            decreases n - i,
        {
            ui_char_event(&mut self.ui, plan.chars[i], plan.shift, plan.ctrl);
            i = i + 1;
        }
    }
}

} // verus!

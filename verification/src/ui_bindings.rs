//! Trusted declarations for the immediate-mode UI crate.  The UI instance
//! is opaque: its retained widget state, and therefore what a frame's
//! render emits, is decided by the `megaui` crate itself.  Each wrapper
//! performs one UI call; none promises anything about the UI's hidden
//! state beyond what it leaves untouched.

use megaui::InputHandler;
use vstd::prelude::*;

verus! {

#[verifier::external_type_specification]
#[verifier::external_body]
/// The UI instance (declared so it can stand in fields and signatures).
pub struct ExUi(megaui::Ui);

#[verifier::external_type_specification]
#[verifier::external_body]
/// One triangulated batch the UI emits (opaque: it carries float vertex
/// data; the shell converts it to plain values for the assembly).
pub struct ExDrawList(megaui::DrawList);

#[verifier::external_type_specification]
#[verifier::external_body]
/// A two-component vector of the UI's coordinate space.
pub struct ExVector2(megaui::Vector2);

/// Relies on megaui::Ui::render: appends the frame's draw lists for every
/// active window to `out`, never removing existing ones.  What the lists
/// hold depends on the UI's retained state, of which nothing is promised.
#[verifier::external_body]
pub(crate) fn ui_render(ui: &mut megaui::Ui, out: &mut Vec<megaui::DrawList>)
    ensures
        final(out)@.len() >= old(out)@.len(),
{
    ui.render(out);
}

/// Relies on megaui::InputHandler::char_event for megaui::Ui: feeds one
/// typed character, with the modifier state, into the UI's input queue.
#[verifier::external_body]
pub(crate) fn ui_char_event(ui: &mut megaui::Ui, character: char, shift: bool, ctrl: bool) {
    ui.char_event(character, shift, ctrl);
}

/// Relies on megaui::widgets::Window: builds a window with the given id,
/// position, size, label and flags (one builder chain), and runs `body`
/// with the UI while the window is begun.  The window's retained state
/// lives inside the UI; nothing is promised of it.
#[verifier::external_body]
pub(crate) fn ui_show_window<F: FnOnce(&mut megaui::Ui)>(
    ui: &mut megaui::Ui,
    id: u64,
    position: megaui::Vector2,
    size: megaui::Vector2,
    label: &str,
    movable: bool,
    titlebar: bool,
    close_button: bool,
    body: F,
) {
    megaui::widgets::Window::new(id, position, size)
        .label(label)
        .movable(movable)
        .titlebar(titlebar)
        .close_button(close_button)
        .ui(ui, body);
}

} // verus!

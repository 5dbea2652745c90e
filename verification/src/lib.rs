//! Verified core of a bridge that embeds the `megaui` immediate-mode UI
//! library into a retained-mode engine's render graph.
//!
//! The crate models the engine-facing data (texture handles, asset events,
//! GPU resource ids, draw lists) as plain values and verifies the per-frame
//! decision logic: harvesting triangulated draw lists into shared vertex and
//! index buffers, reconciling GPU texture resources against a user-managed
//! registry and against asset events, and recording a clipped,
//! texture-switched indexed draw sequence.  The GPU and windowing calls
//! themselves are performed by an unverified shell that executes the action
//! lists this crate produces.

use vstd::prelude::*;

pub mod attachments;
pub mod context;
pub mod draw;
pub mod handle;
pub mod input;
pub mod layout;
pub mod node;
pub mod pass;
pub mod registry;
pub mod textures;
pub mod transform;
pub mod ui_bindings;
pub mod vecmap;

verus! {

/// Marker for the one-shot bootstrap that wires the UI pass into the
/// engine's render graph; the unverified shell drives it.
pub struct MegaUiPlugin;

/// Name of the transform uniform binding consumed by the UI pipeline.
pub const MEGAUI_TRANSFORM_RESOURCE_BINDING_NAME: &'static str = "MegaUiTransform";

/// Name of the combined texture binding consumed by the UI pipeline.
pub const MEGAUI_TEXTURE_RESOURCE_BINDING_NAME: &'static str = "MegaUiTexture_texture";

/// Render-graph node name of the UI pass.
pub const MEGAUI_PASS_NODE: &'static str = "megaui_pass";

/// Render-graph node name of the transform-uniform updater.
pub const MEGAUI_TRANSFORM_NODE: &'static str = "megaui_transform";

} // verus!

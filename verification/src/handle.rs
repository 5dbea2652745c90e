//! Plain-value stand-ins for the engine's asset handles and texture
//! descriptors.  The engine's own handle type is opaque to the verifier, so
//! the unverified shell maps each asset handle to a stable numeric id and
//! back; everything the per-frame logic reads lives here as integers.

use vstd::prelude::*;

verus! {

/// Whether a registry entry pins the texture asset alive (owning, a strong
/// handle) or merely refers to an asset whose lifetime the caller manages
/// elsewhere (borrowing, a weak handle).
#[derive(Clone, Copy, Debug, PartialEq, Eq, Structural)]
pub enum HandleKind {
    Owning,
    Borrowing,
}

/// A texture-asset handle: a stable numeric id plus the strong/weak choice.
///
/// Two handles refer to the same asset exactly when their ids agree; the
/// kind records the caller's lifetime contract and takes no part in asset
/// identity.
#[derive(Clone, Copy, Debug, PartialEq, Eq, Structural)]
pub struct TexHandle {
    /// Stable id of the texture asset this handle points at.
    pub id: u64,
    /// Strong/weak choice made by whoever stored the handle.
    pub kind: HandleKind,
}

/// How the texels of a texture are laid out in space.
#[derive(Clone, Copy, Debug, PartialEq, Eq, Structural)]
pub enum TextureDimension {
    D1,
    D2,
    D3,
}

/// The part of an engine texture descriptor that decides whether a mutated
/// asset is still compatible with the GPU texture already allocated for it:
/// its extent, its dimension, and its pixel format (carried as the engine's
/// numeric format code).
#[derive(Clone, Copy, Debug, PartialEq, Eq, Structural)]
pub struct TextureDescriptor {
    /// Width of the texture in texels.
    pub width: u32,
    /// Height of the texture in texels.
    pub height: u32,
    /// Depth (or array layer count) of the texture.
    pub depth: u32,
    /// Spatial layout of the texels.
    pub dimension: TextureDimension,
    /// Engine pixel-format code.
    pub format: u32,
}

} // verus!

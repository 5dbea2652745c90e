//! GPU-side texture bookkeeping: the resource record kept per realised
//! texture handle, the store mapping handle ids to records, and the model
//! of the engine's loaded-asset catalog.

use crate::handle::TextureDescriptor;
use crate::vecmap::VecMap;
use vstd::prelude::*;

verus! {

/// The GPU primitives realised for one texture handle, plus the descriptor
/// they were allocated from (kept so an incompatible asset mutation can be
/// detected).
#[derive(Clone, Copy, Debug, PartialEq, Eq, Structural)]
pub struct TextureResource {
    /// Descriptor the GPU texture was allocated from.
    pub descriptor: TextureDescriptor,
    /// GPU texture id.
    pub texture_id: u64,
    /// GPU sampler id.
    pub sampler_id: u64,
    /// Bind group holding the texture view and the sampler.
    pub bind_group_id: u64,
}

/// The store of realised textures, keyed by texture-asset handle id.
pub type TextureStore = VecMap<TextureResource>;

/// The engine's loaded texture assets, keyed by handle id: a handle is
/// loaded exactly when the catalog holds its descriptor.
pub type AssetCatalog = VecMap<TextureDescriptor>;

/// GPU primitives of one dropped texture, handed to the shell to free.
#[derive(Clone, Copy, Debug, PartialEq, Eq, Structural)]
pub struct Released {
    /// Handle whose resources these were.
    pub handle_id: u64,
    /// GPU texture id to free.
    pub texture_id: u64,
    /// GPU sampler id to free.
    pub sampler_id: u64,
}

/// `r` records the release of exactly the resources that `h` held in `m`.
pub open spec fn releases_from(r: Released, m: Map<u64, TextureResource>) -> bool {
    &&& m.contains_key(r.handle_id)
    &&& r.texture_id == m[r.handle_id].texture_id
    &&& r.sampler_id == m[r.handle_id].sampler_id
}

/// An in-place pixel update the shell must copy into an existing GPU
/// texture (the mutated asset kept a compatible descriptor).
#[derive(Clone, Copy, Debug, PartialEq, Eq, Structural)]
pub struct CopyTask {
    /// Handle whose asset's pixel data is to be copied.
    pub handle_id: u64,
    /// GPU texture to copy into.
    pub texture_id: u64,
    /// The (unchanged) descriptor, giving the copy's extent.
    pub descriptor: TextureDescriptor,
}

/// A texture the shell must realise on the GPU: allocate texture and
/// sampler from the asset, build its bind group, copy the pixel data, and
/// report the ids back.
#[derive(Clone, Copy, Debug, PartialEq, Eq, Structural)]
pub struct CreateTask {
    /// Handle to realise.
    pub handle_id: u64,
    /// Descriptor of the loaded asset it is realised from.
    pub descriptor: TextureDescriptor,
}

/// The byte pitch of one texel row in the staging buffer a pixel copy
/// goes through: the pixel size times the backend-aligned row width.
/// Nothing is returned when the product does not fit the GPU's 32-bit
/// pitch field.
pub fn copy_row_pitch(format_size: u32, aligned_width: u32) -> (r: Option<u32>)
    ensures
        r matches Some(p) ==> p == format_size * aligned_width,
        r is None <==> format_size * aligned_width > u32::MAX,
{
    proof {
        vstd::arithmetic::mul::lemma_mul_upper_bound(
            format_size as int,
            0xFFFF_FFFF,
            aligned_width as int,
            0xFFFF_FFFF,
        );
    }
    let wide: u64 = (format_size as u64) * (aligned_width as u64);
    if wide > u32::MAX as u64 {
        None
    } else {
        Some(wide as u32)
    }
}

} // verus!

//! The transform-uniform updater's decision: the orthographic projection
//! buffer is rebuilt only when the window size changes.  The size's scalar
//! components reach the core as raw bit patterns, so equality here is
//! exact bit equality of what the host reported.

use vstd::prelude::*;

verus! {

/// One window-size report, as the bit patterns of its scalar components.
#[derive(Clone, Copy, Debug, PartialEq, Eq, Structural)]
pub struct WindowSizeBits {
    /// Bit pattern of the logical width.
    pub width_bits: u32,
    /// Bit pattern of the logical height.
    pub height_bits: u32,
    /// Bit pattern of the scale factor.
    pub scale_bits: u32,
}

/// The updater's retained state: the last window size it built the
/// projection buffer for.
pub struct TransformUpdater {
    /// The size the buffer currently reflects, once one was built.
    pub last_size: Option<WindowSizeBits>,
}

impl TransformUpdater {
    /// A fresh updater that has built nothing yet.
    pub fn new() -> (r: TransformUpdater)
        ensures
            r.last_size is None,
    {
        TransformUpdater { last_size: None }
    }

    /// Decides whether this frame must rebuild the projection buffer:
    /// exactly on the first report and whenever the size changed; the
    /// report is retained either way.
    pub fn observe(&mut self, size: WindowSizeBits) -> (rebuild: bool)
        ensures
            rebuild == (old(self).last_size != Some(size)),
            final(self).last_size == Some(size),
    {
        let rebuild = match self.last_size {
            Some(last) => last != size,
            None => true,
        };
        self.last_size = Some(size);
        rebuild
    }
}

} // verus!

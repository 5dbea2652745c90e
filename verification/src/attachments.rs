//! The UI pass's attachment wiring: which named input slots the render
//! graph must fill, how they map to the pass's color, resolve and depth
//! attachments, and which slot the swap-chain image feeds depending on the
//! MSAA sample count.

use vstd::prelude::*;

verus! {

/// Where a pass attachment reads from: a named input slot still to be
/// filled, or the GPU texture resolved for the current frame.
#[derive(Clone, Debug)]
pub enum Target {
    /// A named input slot of the pass node.
    Input(String),
    /// A concrete GPU texture id.
    Id(u64),
}

/// What a pass does with an attachment's previous contents.
#[derive(Clone, Copy, Debug, PartialEq, Eq, Structural)]
pub enum LoadOp {
    /// Keep what the main pass rendered and composite over it.
    Load,
    /// Clear before drawing (the depth attachment clears to the far plane).
    Clear,
}

/// `a` is the input slot named `name`.
pub open spec fn is_input(a: Target, name: Seq<char>) -> bool {
    a matches Target::Input(s) && s@ == name
}

/// `a` is the GPU texture `id`.
pub open spec fn is_id(a: Target, id: u64) -> bool {
    a == Target::Id(id)
}

/// The UI pass's attachments and input-slot bookkeeping.
pub struct PassFrame {
    /// The color attachment drawn into.
    pub color_attachment: Target,
    /// Under multisampling, the single-sample texture the color attachment
    /// resolves into; absent without multisampling.
    pub color_resolve_target: Option<Target>,
    /// What happens to the color attachment's previous contents.
    pub color_op: LoadOp,
    /// The depth attachment.
    pub depth_attachment: Target,
    /// What happens to the depth attachment's previous contents.
    pub depth_op: LoadOp,
    /// The pass's input slot names, in slot order.
    pub inputs: Vec<String>,
    /// Index of the color attachment's slot in `inputs`.
    pub color_attachment_input_index: Option<usize>,
    /// Index of the resolve target's slot in `inputs`, when one exists.
    pub color_resolve_target_index: Option<usize>,
    /// Index of the depth attachment's slot in `inputs`.
    pub depth_input_index: Option<usize>,
    /// MSAA sample count the pass renders with.
    pub sample_count: u32,
}

impl PassFrame {
    /// The indices point at distinct, in-range slots.
    pub open spec fn wf(self) -> bool {
        &&& self.color_attachment_input_index matches Some(i) ==> i < self.inputs@.len()
        &&& self.color_resolve_target_index matches Some(i) ==> i < self.inputs@.len()
        &&& self.depth_input_index matches Some(i) ==> i < self.inputs@.len()
    }

    /// Builds the pass's attachment set for the given MSAA sample count.
    ///
    /// The color attachment, the resolve target (present exactly when
    /// multisampling, with more than one sample), and the depth attachment
    /// all read from named input slots; the color attachment loads the main
    /// pass's output while the depth attachment clears.
    pub fn new(msaa_samples: u32) -> (r: PassFrame)
        ensures
            r.wf(),
            r.sample_count == msaa_samples,
            r.color_op == LoadOp::Load,
            r.depth_op == LoadOp::Clear,
            is_input(r.color_attachment, "color_attachment"@),
            msaa_samples > 1 <==> r.color_resolve_target is Some,
            r.color_resolve_target matches Some(t) ==> is_input(t, "color_resolve_target"@),
            is_input(r.depth_attachment, "depth"@),
            r.inputs@.len() == if msaa_samples > 1 {
                3int
            } else {
                2int
            },
            r.inputs@[0]@ == "color_attachment"@,
            msaa_samples > 1 ==> r.inputs@[1]@ == "color_resolve_target"@,
            r.inputs@[r.inputs@.len() - 1]@ == "depth"@,
            r.color_attachment_input_index == Some(0usize),
            r.color_resolve_target_index == if msaa_samples > 1 {
                Some(1usize)
            } else {
                None::<usize>
            },
            r.depth_input_index == Some(
                if msaa_samples > 1 {
                    2usize
                } else {
                    1usize
                },
            ),
    {
        let mut inputs: Vec<String> = Vec::new();
        inputs.push("color_attachment".to_owned());
        let color_attachment_input_index: Option<usize> = Some(0);
        let mut color_resolve_target_index: Option<usize> = None;
        let mut color_resolve_target: Option<Target> = None;
        if msaa_samples > 1 {
            color_resolve_target_index = Some(inputs.len());
            color_resolve_target = Some(Target::Input("color_resolve_target".to_owned()));
            inputs.push("color_resolve_target".to_owned());
        }
        let depth_input_index: Option<usize> = Some(inputs.len());
        inputs.push("depth".to_owned());
        PassFrame {
            color_attachment: Target::Input("color_attachment".to_owned()),
            color_resolve_target,
            color_op: LoadOp::Load,
            depth_attachment: Target::Input("depth".to_owned()),
            depth_op: LoadOp::Clear,
            inputs,
            color_attachment_input_index,
            color_resolve_target_index,
            depth_input_index,
            sample_count: msaa_samples,
        }
    }

    /// Binds this frame's resolved slot textures into the pass: each
    /// attachment with an input index takes the GPU texture its slot
    /// carries; everything else is kept.
    pub fn process_attachments(&mut self, slots: &Vec<Option<u64>>)
        requires
            old(self).wf(),
            slots@.len() == old(self).inputs@.len(),
            old(self).color_attachment_input_index matches Some(i) ==> slots@[i as int] is Some,
            old(self).color_resolve_target_index matches Some(i) ==> slots@[i as int] is Some,
            old(self).depth_input_index matches Some(i) ==> slots@[i as int] is Some,
        ensures
            final(self).wf(),
            final(self).inputs == old(self).inputs,
            final(self).color_attachment_input_index == old(self).color_attachment_input_index,
            final(self).color_resolve_target_index == old(self).color_resolve_target_index,
            final(self).depth_input_index == old(self).depth_input_index,
            final(self).sample_count == old(self).sample_count,
            final(self).color_op == old(self).color_op,
            final(self).depth_op == old(self).depth_op,
            match old(self).color_attachment_input_index {
                Some(i) => is_id(final(self).color_attachment, slots@[i as int]->0),
                None => final(self).color_attachment == old(self).color_attachment,
            },
            match old(self).color_resolve_target_index {
                Some(i) => final(self).color_resolve_target == Some(
                    Target::Id(slots@[i as int]->0),
                ),
                None => final(self).color_resolve_target == old(self).color_resolve_target,
            },
            match old(self).depth_input_index {
                Some(i) => is_id(final(self).depth_attachment, slots@[i as int]->0),
                None => final(self).depth_attachment == old(self).depth_attachment,
            },
    {
        match self.depth_input_index {
            Some(i) => {
                match slots[i] {
                    Some(id) => {
                        self.depth_attachment = Target::Id(id);
                    }
                    None => {}
                }
            }
            None => {}
        }
        match self.color_attachment_input_index {
            Some(i) => {
                match slots[i] {
                    Some(id) => {
                        self.color_attachment = Target::Id(id);
                    }
                    None => {}
                }
            }
            None => {}
        }
        match self.color_resolve_target_index {
            Some(i) => {
                match slots[i] {
                    Some(id) => {
                        self.color_resolve_target = Some(Target::Id(id));
                    }
                    None => {}
                }
            }
            None => {}
        }
    }
}

/// Which input slot of the UI pass the swap-chain image feeds: under
/// multisampling the swap-chain image is the resolve target; otherwise it
/// is the color attachment itself.
pub fn swap_chain_input(msaa_samples: u32) -> (name: &'static str)
    ensures
        msaa_samples > 1 ==> name@ == "color_resolve_target"@,
        msaa_samples <= 1 ==> name@ == "color_attachment"@,
{
    if msaa_samples > 1 {
        "color_resolve_target"
    } else {
        "color_attachment"
    }
}

/// Whether the engine's multisampled color texture must additionally be
/// wired to the pass's color attachment (only under multisampling).
pub fn needs_sampled_color_attachment(msaa_samples: u32) -> (r: bool)
    ensures
        r == (msaa_samples > 1),
{
    msaa_samples > 1
}

} // verus!

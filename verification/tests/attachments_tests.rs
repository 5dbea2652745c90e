use megaui_bridge::attachments::{
    needs_sampled_color_attachment, swap_chain_input, LoadOp, PassFrame, Target,
};
use megaui_bridge::transform::{TransformUpdater, WindowSizeBits};

fn input_name(t: &Target) -> Option<&str> {
    match t {
        Target::Input(s) => Some(s.as_str()),
        Target::Id(_) => None,
    }
}

#[test]
fn without_msaa_only_the_color_attachment_is_bound() {
    let frame = PassFrame::new(1);
    assert_eq!(input_name(&frame.color_attachment), Some("color_attachment"));
    assert!(frame.color_resolve_target.is_none());
    assert_eq!(input_name(&frame.depth_attachment), Some("depth"));
    assert_eq!(frame.inputs.len(), 2);
    assert_eq!(frame.color_attachment_input_index, Some(0));
    assert_eq!(frame.color_resolve_target_index, None);
    assert_eq!(frame.depth_input_index, Some(1));
}

#[test]
fn with_msaa_both_color_attachment_and_resolve_target_are_bound() {
    let frame = PassFrame::new(4);
    assert_eq!(input_name(&frame.color_attachment), Some("color_attachment"));
    match &frame.color_resolve_target {
        Some(t) => assert_eq!(input_name(t), Some("color_resolve_target")),
        None => panic!("resolve target missing under MSAA"),
    }
    assert_eq!(frame.inputs.len(), 3);
    assert_eq!(frame.color_resolve_target_index, Some(1));
    assert_eq!(frame.depth_input_index, Some(2));
}

#[test]
fn color_loads_while_depth_clears() {
    let frame = PassFrame::new(1);
    assert_eq!(frame.color_op, LoadOp::Load);
    assert_eq!(frame.depth_op, LoadOp::Clear);
}

#[test]
fn slot_textures_are_bound_into_the_attachments() {
    let mut frame = PassFrame::new(4);
    let slots = vec![Some(100u64), Some(200u64), Some(300u64)];
    frame.process_attachments(&slots);
    assert!(matches!(frame.color_attachment, Target::Id(100)));
    assert!(matches!(frame.color_resolve_target, Some(Target::Id(200))));
    assert!(matches!(frame.depth_attachment, Target::Id(300)));
}

#[test]
fn swap_chain_feeds_the_resolve_target_only_under_msaa() {
    assert_eq!(swap_chain_input(1), "color_attachment");
    assert_eq!(swap_chain_input(4), "color_resolve_target");
    assert!(!needs_sampled_color_attachment(1));
    assert!(needs_sampled_color_attachment(4));
}

#[test]
fn projection_rebuilds_only_when_the_window_size_changes() {
    let size = |w: f32, h: f32, s: f32| WindowSizeBits {
        width_bits: w.to_bits(),
        height_bits: h.to_bits(),
        scale_bits: s.to_bits(),
    };
    let mut updater = TransformUpdater::new();
    assert!(updater.observe(size(1280.0, 720.0, 1.0)));
    assert!(!updater.observe(size(1280.0, 720.0, 1.0)));
    assert!(updater.observe(size(1280.0, 720.0, 2.0)));
    assert!(updater.observe(size(640.0, 480.0, 2.0)));
    assert!(!updater.observe(size(640.0, 480.0, 2.0)));
}

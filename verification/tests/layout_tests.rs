use megaui_bridge::draw::VERTEX_STRIDE;
use megaui_bridge::layout::{
    find_bind_group_by_binding_name, megaui_vertex_layout, BindGroupInfo, PipelineLayoutInfo,
    VertexFormat,
};
use megaui_bridge::{
    MEGAUI_TEXTURE_RESOURCE_BINDING_NAME, MEGAUI_TRANSFORM_RESOURCE_BINDING_NAME,
};

fn group(index: u32, names: &[&str]) -> BindGroupInfo {
    BindGroupInfo { index, binding_names: names.iter().map(|n| n.to_string()).collect() }
}

#[test]
fn finds_the_group_holding_the_transform_binding() {
    let layout = PipelineLayoutInfo {
        bind_groups: vec![
            group(0, &[MEGAUI_TRANSFORM_RESOURCE_BINDING_NAME]),
            group(1, &[MEGAUI_TEXTURE_RESOURCE_BINDING_NAME, "MegaUiTexture_texture_sampler"]),
        ],
    };
    let transform = find_bind_group_by_binding_name(
        &layout,
        &MEGAUI_TRANSFORM_RESOURCE_BINDING_NAME.to_string(),
    );
    assert_eq!(transform, Some(0));
    let texture = find_bind_group_by_binding_name(
        &layout,
        &MEGAUI_TEXTURE_RESOURCE_BINDING_NAME.to_string(),
    );
    assert_eq!(texture, Some(1));
}

#[test]
fn missing_binding_finds_no_group() {
    let layout = PipelineLayoutInfo { bind_groups: vec![group(0, &["Other"])] };
    assert_eq!(find_bind_group_by_binding_name(&layout, &"MegaUiTransform".to_string()), None);
}

#[test]
fn first_matching_group_wins() {
    let layout = PipelineLayoutInfo {
        bind_groups: vec![group(0, &["Shared"]), group(1, &["Shared"])],
    };
    assert_eq!(find_bind_group_by_binding_name(&layout, &"Shared".to_string()), Some(0));
}

#[test]
fn vertex_layout_packs_position_uv_color() {
    let (attrs, stride) = megaui_vertex_layout();
    assert_eq!(attrs.len(), 3);
    assert_eq!((attrs[0].offset, attrs[0].format, attrs[0].shader_location), (0, VertexFormat::Float3, 0));
    assert_eq!((attrs[1].offset, attrs[1].format, attrs[1].shader_location), (12, VertexFormat::Float2, 1));
    assert_eq!((attrs[2].offset, attrs[2].format, attrs[2].shader_location), (20, VertexFormat::Float4, 2));
    assert_eq!(stride, 36);
    assert_eq!(stride as usize, VERTEX_STRIDE);
}

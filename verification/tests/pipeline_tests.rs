//! Tests of clipping-plane collection, pipeline specialization, the frame
//! plan, and the numeric helpers.

use point_cloud_playback::clipping_planes::{
    extract_clipping_planes, ClippingPlaneInstance, ClippingPlaneRange, MAX_CLIPPING_PLANES,
};
use point_cloud_playback::numeric::{f32_bits_to_fixed, f32_bits_to_whole, Fraction};
use point_cloud_playback::pipeline::{
    eye_dome_specialize, quad_vertex_bytes, queue_point_cloud, queue_point_cloud_bind_group,
    queue_view_targets, specialize, BindingTypeKind, CameraViewInput, ColorWriteMaskKind,
    DepthCompare, EyeDomePipeline, EyeDomePipelineKey, PointCloudPipeline,
    PointCloudPipelineKey, PrimitiveTopologyKind, QueueItem, SpecializedEyeDomePipelines,
    SpecializedPointCloudPipelines, TargetSize, TextureFormatKind, VertexFormatKind,
};
use point_cloud_playback::point_cloud::Position;
use point_cloud_playback::render::BindGroupLayoutKind;
use point_cloud_playback::render_graph::{
    plan_frame, EdlStrengthKind, NodeDrawItem, NodeViewInput, RenderCommand,
};

fn plane(min_sdist: i64, max_sdist: i64, ox: i64) -> ClippingPlaneInstance {
    ClippingPlaneInstance {
        range: ClippingPlaneRange { min_sdist, max_sdist },
        origin: Position { x: ox, y: 0, z: 0 },
        unit_normal: Position { x: 65536, y: 0, z: 0 },
    }
}

#[test]
fn clipping_planes_cap_at_sixteen() {
    // Twenty planes, cap sixteen: exactly sixteen survive, the first
    // sixteen in iteration order, and the truncation is reported.
    let planes: Vec<ClippingPlaneInstance> = (0..20).map(|i| plane(0, 100, i)).collect();
    let gpu = extract_clipping_planes(&planes);
    assert_eq!(gpu.ranges.len(), MAX_CLIPPING_PLANES);
    assert_eq!(gpu.num_ranges, 16);
    assert!(gpu.truncated);
    for i in 0..16i64 {
        assert_eq!(gpu.ranges[i as usize].origin.x, i);
    }
}

#[test]
fn clipping_planes_under_cap_kept_whole() {
    let planes: Vec<ClippingPlaneInstance> = (0..3).map(|i| plane(-5, 5, i)).collect();
    let gpu = extract_clipping_planes(&planes);
    assert_eq!(gpu.ranges.len(), 3);
    assert_eq!(gpu.num_ranges, 3);
    assert!(!gpu.truncated);
    assert_eq!(gpu.ranges[2].min_sdist, -5);
    assert_eq!(gpu.ranges[2].max_sdist, 5);
    // The default range keeps everything in front of the plane.
    let d = ClippingPlaneRange::default();
    assert_eq!(d.min_sdist, 0);
    assert_eq!(d.max_sdist, i64::MAX);
}

#[test]
fn specialization_variants() {
    let d = specialize(PointCloudPipelineKey { colored: true, animated: false, msaa: 4 });
    assert_eq!(d.entity_layout, BindGroupLayoutKind::Entity);
    assert!(d.colored_define);
    assert!(!d.animated_define);
    assert_eq!(d.sample_count, 4);
    assert_eq!(d.depth_compare, DepthCompare::Greater);
    assert!(d.depth_write_enabled);
    assert_eq!(d.depth_format, TextureFormatKind::Depth32Float);
    assert_eq!(d.topology, PrimitiveTopologyKind::TriangleStrip);
    assert_eq!(d.vertex_stride, 8);
    assert_eq!(d.vertex_attribute.format, VertexFormatKind::Float32x2);
    assert_eq!(d.vertex_attribute.offset, 0);
    assert_eq!(d.vertex_attribute.shader_location, 0);
    // The two splat targets: the view's color and the auxiliary per-pixel
    // depth, both with the replacing blend.
    assert_eq!(d.color_target.format, TextureFormatKind::Rgba8UnormSrgb);
    assert_eq!(d.color_target.write_mask, ColorWriteMaskKind::All);
    assert_eq!(d.depth_position_target.format, TextureFormatKind::R32Float);
    assert_eq!(d.depth_position_target.write_mask, ColorWriteMaskKind::Red);
    let d2 = specialize(PointCloudPipelineKey { colored: false, animated: true, msaa: 1 });
    assert_eq!(d2.entity_layout, BindGroupLayoutKind::AnimatedEntity);
    assert!(d2.animated_define);

    let e1 = eye_dome_specialize(EyeDomePipelineKey { msaa: 1 });
    assert!(!e1.multisampled_layout);
    assert_eq!(e1.push_constant_bytes, 4);
    let e4 = eye_dome_specialize(EyeDomePipelineKey { msaa: 4 });
    assert!(e4.multisampled_layout);
    assert!(e4.multisampled_define);
}

#[test]
fn pipeline_cache_memoizes() {
    let mut cache = SpecializedPointCloudPipelines::new();
    let k1 = PointCloudPipelineKey { colored: true, animated: true, msaa: 1 };
    let k2 = PointCloudPipelineKey { colored: false, animated: true, msaa: 1 };
    let a = cache.specialize_cached(k1);
    let b = cache.specialize_cached(k2);
    let c = cache.specialize_cached(k1);
    assert_eq!(a, c);
    assert_ne!(a, b);
    assert_eq!(cache.keys.len(), 2);
    assert_eq!(cache.descriptors[a], specialize(k1));
    assert_eq!(cache.descriptors[b], specialize(k2));
}

#[test]
fn queue_builds_draw_list_through_cache() {
    let mut cache = SpecializedPointCloudPipelines::new();
    let items = vec![
        QueueItem { entity: 10, colored: true, animated: false },
        QueueItem { entity: 11, colored: true, animated: false },
        QueueItem { entity: 12, colored: false, animated: true },
    ];
    let list = queue_point_cloud(&items, 4, &mut cache);
    assert_eq!(list.list.len(), 3);
    assert_eq!(list.list[0].entity, 10);
    // Equal variant keys share one compiled pipeline.
    assert_eq!(list.list[0].pipeline_id, list.list[1].pipeline_id);
    assert_ne!(list.list[0].pipeline_id, list.list[2].pipeline_id);
}

#[test]
fn view_targets_share_per_render_target() {
    let mut cache = SpecializedEyeDomePipelines::new();
    let cameras = vec![
        CameraViewInput {
            entity: 1,
            render_target: 100,
            physical_size: Some(TargetSize { width: 1920, height: 1080 }),
        },
        CameraViewInput {
            entity: 2,
            render_target: 100,
            physical_size: Some(TargetSize { width: 640, height: 480 }),
        },
        CameraViewInput {
            entity: 3,
            render_target: 200,
            physical_size: Some(TargetSize { width: 640, height: 480 }),
        },
        CameraViewInput { entity: 4, render_target: 300, physical_size: None },
    ];
    let (assignments, targets) = queue_view_targets(&cameras, 4, &mut cache);
    assert_eq!(assignments.len(), 4);
    // Cameras 1 and 2 draw to one render target: they share one entry,
    // sized by the first of them.
    let a0 = assignments[0].target_index.unwrap();
    let a1 = assignments[1].target_index.unwrap();
    let a2 = assignments[2].target_index.unwrap();
    assert_eq!(a0, a1);
    assert_ne!(a0, a2);
    assert_eq!(targets.entries.len(), 2);
    assert_eq!(targets.entries[a0].size, TargetSize { width: 1920, height: 1080 });
    assert_eq!(targets.entries[a2].size, TargetSize { width: 640, height: 480 });
    // The frame's sampling and the cached lighting pipeline.
    assert_eq!(targets.entries[a0].sample_count, 4);
    assert!(targets.entries[a0].multisampled);
    assert_eq!(targets.entries[a0].pipeline_id, targets.entries[a2].pipeline_id);
    assert_eq!(
        cache.descriptors[targets.entries[a0].pipeline_id],
        eye_dome_specialize(EyeDomePipelineKey { msaa: 4 })
    );
    // A camera without a physical target size gets no entry.
    assert!(assignments[3].target_index.is_none());
}

#[test]
fn view_bind_groups_follow_uniform_availability() {
    let bg = queue_point_cloud_bind_group(true, true, false);
    assert!(bg.bind_group_present);
    assert!(!bg.model_bind_group_present);
    let bg2 = queue_point_cloud_bind_group(true, false, true);
    assert!(!bg2.bind_group_present);
}

#[test]
fn pipeline_layouts_shape() {
    let p = PointCloudPipeline::new();
    assert_eq!(p.view_layout.len(), 2);
    assert_eq!(p.entity_layout.len(), 1);
    assert_eq!(p.animated_entity_layout.len(), 3);
    assert_eq!(p.model_layout.len(), 1);
    assert_eq!(p.entity_layout[0].ty, BindingTypeKind::StorageReadOnly);
    assert_eq!(p.view_layout[0].ty, BindingTypeKind::UniformDynamicOffset);
    // The quad corner buffer: four little-endian float pairs of 0.0/1.0.
    assert_eq!(p.instanced_point_quad, quad_vertex_bytes());
    assert_eq!(p.instanced_point_quad.len(), 32);
    assert_eq!(&p.instanced_point_quad[0..8], &[0, 0, 0, 0, 0, 0, 128, 63]);

    let e = EyeDomePipeline::new();
    assert_eq!(e.eye_dome_image_layout.len(), 1);
    assert_eq!(e.eye_dome_image_layout[0].ty, BindingTypeKind::Texture);
    assert_eq!(
        e.multisampled_eye_dome_image_layout[0].ty,
        BindingTypeKind::MultisampledTexture
    );
}

fn ready_item(entity: u64, id: usize, points: u32) -> NodeDrawItem {
    NodeDrawItem {
        entity,
        pipeline_compiled: true,
        pipeline_id: id,
        asset_present: true,
        bind_group_present: true,
        num_points: points,
        model_index: 3,
    }
}

#[test]
fn frame_plan_draws_ready_items_and_composites() {
    let view = NodeViewInput {
        view_uniform_offset: 64,
        bind_group_present: true,
        model_bind_group_present: true,
        eye_dome_pipeline_compiled: true,
        perspective: true,
    };
    let mut not_ready = ready_item(21, 5, 9);
    not_ready.pipeline_compiled = false;
    let items = vec![ready_item(20, 4, 1000), not_ready];
    let plan = plan_frame(view, &items);
    assert_eq!(
        plan,
        vec![
            RenderCommand::BeginSplatPass,
            RenderCommand::SetViewBindGroup { offset: 64 },
            RenderCommand::SetQuadVertexBuffer,
            RenderCommand::SetPipeline { id: 4 },
            RenderCommand::SetEntityBindGroup { entity: 20 },
            RenderCommand::SetModelBindGroup { index: 3 },
            RenderCommand::DrawQuadInstanced { instances: 1000 },
            RenderCommand::BeginEyeDomePass,
            RenderCommand::SetEyeDomeStrength { kind: EdlStrengthKind::Perspective },
            RenderCommand::SetEyeDomeBindGroup,
            RenderCommand::SetQuadVertexBuffer,
            RenderCommand::DrawFullScreen,
        ]
    );
}

#[test]
fn frame_plan_skips_without_view_bind_group() {
    let view = NodeViewInput {
        view_uniform_offset: 0,
        bind_group_present: false,
        model_bind_group_present: true,
        eye_dome_pipeline_compiled: true,
        perspective: true,
    };
    let plan = plan_frame(view, &vec![ready_item(1, 0, 5)]);
    assert_eq!(plan, vec![RenderCommand::BeginSplatPass]);
}

#[test]
fn frame_plan_orthographic_strength_and_missing_lighting() {
    let view = NodeViewInput {
        view_uniform_offset: 0,
        bind_group_present: true,
        model_bind_group_present: true,
        eye_dome_pipeline_compiled: false,
        perspective: false,
    };
    let plan = plan_frame(view, &vec![]);
    // No draws, and the lighting pass waits for its pipeline.
    assert_eq!(
        plan,
        vec![
            RenderCommand::BeginSplatPass,
            RenderCommand::SetViewBindGroup { offset: 0 },
            RenderCommand::SetQuadVertexBuffer,
        ]
    );
    let mut lit = view;
    lit.eye_dome_pipeline_compiled = true;
    let plan2 = plan_frame(lit, &vec![]);
    assert!(plan2.contains(&RenderCommand::SetEyeDomeStrength {
        kind: EdlStrengthKind::OrthographicInverseDepthScale,
    }));
}

#[test]
fn f32_bit_decoding_is_exact() {
    assert_eq!(f32_bits_to_fixed(1.5f32.to_bits()), Some(3 << 15));
    assert_eq!(f32_bits_to_fixed(0.5f32.to_bits()), Some(1 << 15));
    assert_eq!(f32_bits_to_fixed((-2.25f32).to_bits()), Some(-(9 << 14)));
    assert_eq!(f32_bits_to_fixed(0.0f32.to_bits()), Some(0));
    assert_eq!(f32_bits_to_fixed(f32::NAN.to_bits()), None);
    assert_eq!(f32_bits_to_fixed(f32::INFINITY.to_bits()), None);

    assert_eq!(f32_bits_to_whole(1000.0f32.to_bits()), Some(1000));
    assert_eq!(f32_bits_to_whole(0.75f32.to_bits()), Some(0));
    assert_eq!(f32_bits_to_whole(16777216.0f32.to_bits()), Some(16777216));
    assert_eq!(f32_bits_to_whole((-1.0f32).to_bits()), None);
    assert_eq!(f32_bits_to_whole((-0.0f32).to_bits()), Some(0));
    assert_eq!(f32_bits_to_whole(f32::NAN.to_bits()), None);

    let f = Fraction::zero();
    assert_eq!((f.num, f.den), (0, 1));
}

use rendering::renderer::CutPins;
use rendering::renderer::host_settings::{cut_override_from, switch_on, text_is};
use ash::vk::{AccessFlags2, ImageLayout, PipelineStageFlags2};
use rendering::renderer::capture::{offscreen_source_scope, shm_copy_runs};
use rendering::render_graph::graph::RenderGraph;
use rendering::render_graph::{RgExtent2D, RgQueueAssignment, RgResource, RgUsage};
use rendering::renderer::bloom::{add_bloom_passes, BloomDispatch, BloomMip, BloomStage, BloomStreak};
use rendering::renderer::froxel_fog::{add_froxel_fog_passes, FogVolume};
use rendering::renderer::graph_util::{color_load_store, depth_clear_store, depth_load_readonly, depth_load_store};
use rendering::renderer::frame::{
    batch_wait_points, frame_submit_count, merge_timeline_point, tail_wait_point, FrameTimelinePoint,
};
use rendering::renderer::lighting::{wind_authored_digest, wind_source_digest, WindAuthored, WindSourceAuthored};
use rendering::renderer::{
    Error, Renderer, SceneViewClass, SwapchainCaps, ViewId, SCENE_CUT_AUTO, SCENE_CUT_FORCE_COARSE,
    SCENE_CUT_FORCE_FINE,
};

/// The authored global wind field and its clock.
#[derive(Clone, Copy, Default)]
struct SceneWind {
    orientation: f32,
    speed: f32,
    gust: f32,
    turbulence_octaves: u32,
    turbulence_roughness: f32,
    gust_frequency: f32,
    reference_height: f32,
    height_exponent: f32,
    seed: u32,
    time_s: f64,
}

fn authored(wind: &SceneWind) -> WindAuthored {
    WindAuthored {
        orientation_bits: wind.orientation.to_bits(),
        speed_bits: wind.speed.to_bits(),
        gust_bits: wind.gust.to_bits(),
        turbulence_octaves: wind.turbulence_octaves,
        turbulence_roughness_bits: wind.turbulence_roughness.to_bits(),
        gust_frequency_bits: wind.gust_frequency.to_bits(),
        reference_height_bits: wind.reference_height.to_bits(),
        height_exponent_bits: wind.height_exponent.to_bits(),
        seed: wind.seed,
    }
}

#[test]
fn the_wind_clock_is_not_an_edit() {
    let mut wind = SceneWind::default();
    let base = wind_authored_digest(&authored(&wind));
    wind.time_s += 1234.5;
    assert_eq!(wind_authored_digest(&authored(&wind)), base, "the clock is not an edit");
    wind.speed += 1.0;
    assert_ne!(wind_authored_digest(&authored(&wind)), base, "a speed change is");
}

/// A local wind source's authored state.
#[derive(Clone, Copy)]
struct LocalWindSource {
    kind: u64,
    position: [f64; 3],
    direction: [f32; 3],
    strength: f32,
    radius: f32,
    falloff: f32,
}

fn source_authored(source: &LocalWindSource) -> WindSourceAuthored {
    WindSourceAuthored {
        position_x_bits: (source.position[0] as f32).to_bits(),
        position_y_bits: (source.position[1] as f32).to_bits(),
        position_z_bits: (source.position[2] as f32).to_bits(),
        direction_x_bits: source.direction[0].to_bits(),
        direction_y_bits: source.direction[1].to_bits(),
        direction_z_bits: source.direction[2].to_bits(),
        strength_bits: source.strength.to_bits(),
        radius_bits: source.radius.to_bits(),
        falloff_bits: source.falloff.to_bits(),
        kind: source.kind,
    }
}

#[test]
fn only_a_wind_edit_counts_as_a_discontinuity() {
    let source = |strength: f32| LocalWindSource {
        kind: 0,
        position: [1.0, 2.0, 3.0],
        direction: [1.0, 0.0, 0.0],
        strength,
        radius: 4.0,
        falloff: 0.5,
    };
    let digest = |s: &LocalWindSource| wind_source_digest(&source_authored(s));
    assert_eq!(digest(&source(1.0)), digest(&source(1.0)));
    assert_ne!(digest(&source(1.0)), digest(&source(1.5)));
    let mut moved = source(1.0);
    moved.radius = 4.25;
    assert_ne!(digest(&source(1.0)), digest(&moved));
    let mut turned = source(1.0);
    turned.direction = [0.0, 1.0, 0.0];
    assert_ne!(digest(&source(1.0)), digest(&turned));
}

#[test]
fn observing_the_same_wind_twice_raises_the_flag_once() {
    let mut renderer = Renderer::new(None, true, SCENE_CUT_AUTO);
    let wind = authored(&SceneWind { speed: 3.0, ..SceneWind::default() });
    let sources = [source_authored(&LocalWindSource {
        kind: 1,
        position: [0.0, 0.0, 0.0],
        direction: [0.0, 0.0, 1.0],
        strength: 2.0,
        radius: 1.0,
        falloff: 0.25,
    })];
    renderer.observe_wind(&wind, &sources);
    assert!(renderer.take_wind_discontinuity(), "the first observation differs from boot");
    assert!(!renderer.take_wind_discontinuity(), "taking clears the flag");
    renderer.observe_wind(&wind, &sources);
    assert!(!renderer.take_wind_discontinuity(), "the same wind again is no edit");
    renderer.observe_wind(&wind, &[]);
    assert!(renderer.take_wind_discontinuity(), "a removed source is an edit");
    assert_eq!(renderer.wind_source_count, 0);
}

#[test]
fn a_window_capture_needs_a_capture_capable_swapchain() {
    let mut headless = Renderer::new(None, true, SCENE_CUT_AUTO);
    match headless.request_window_capture("/tmp/shot.png") {
        Err(Error::ShaderLoad(message)) => assert_eq!(
            message,
            "window capture unsupported: the editor/headless host has no present swapchain"
        ),
        other => panic!("unexpected {other:?}"),
    }
    assert!(!headless.window_capture_pending());

    let mut plain = Renderer::new(Some(SwapchainCaps { capture_supported: false }), true, SCENE_CUT_AUTO);
    match plain.request_window_capture("/tmp/shot.png") {
        Err(Error::ShaderLoad(message)) => {
            assert_eq!(message, "window capture unsupported: surface lacks TRANSFER_SRC usage")
        },
        other => panic!("unexpected {other:?}"),
    }

    let mut window = Renderer::new(Some(SwapchainCaps { capture_supported: true }), true, SCENE_CUT_AUTO);
    assert!(window.request_window_capture("/tmp/shot.png").is_ok());
    assert!(window.window_capture_pending());
    assert_eq!(window.take_window_capture().as_deref(), Some("/tmp/shot.png"));
    assert!(!window.window_capture_pending());
}

#[test]
fn arming_a_view_publish_sizes_its_ring_once() {
    let mut renderer = Renderer::new(None, true, SCENE_CUT_AUTO);
    assert!(renderer.set_shm_publish_enabled(ViewId::Thumbnail, true));
    assert!(!renderer.set_shm_publish_enabled(ViewId::Thumbnail, true), "already armed");
    assert!(!renderer.set_shm_publish_enabled(ViewId::Thumbnail, false), "disarming sizes nothing");
    assert_eq!(renderer.shm_publish_enabled, [false, false, false]);
}

#[test]
fn only_a_published_active_view_with_a_landed_readback_stages() {
    let mut renderer = Renderer::new(None, true, SCENE_CUT_AUTO);
    renderer.stage_pending_shm_publish(1, Some(true));
    assert_eq!(renderer.pending_shm_publish, None, "the scene view does not publish");
    renderer.set_shm_publish_enabled(ViewId::Scene, true);
    renderer.stage_pending_shm_publish(1, Some(false));
    assert_eq!(renderer.pending_shm_publish, None, "no readback recorded yet");
    renderer.stage_pending_shm_publish(1, Some(true));
    assert_eq!(renderer.pending_shm_publish, Some((0, 1)));
    renderer.stage_pending_shm_publish(0, None);
    assert_eq!(renderer.pending_shm_publish, None);
}

#[test]
fn a_cut_pin_outside_the_known_pins_follows_projected_error() {
    let mut renderer = Renderer::new(None, true, 77);
    assert_eq!(renderer.cut_override(SceneViewClass::Gi), SCENE_CUT_AUTO);
    renderer.set_cut_override(SceneViewClass::Camera, SCENE_CUT_FORCE_FINE);
    renderer.set_cut_override(SceneViewClass::ShadowPage, 12345);
    assert_eq!(renderer.cut_override(SceneViewClass::Camera), SCENE_CUT_FORCE_FINE);
    assert_eq!(renderer.cut_override(SceneViewClass::ShadowPage), SCENE_CUT_AUTO);
    let coarse = Renderer::new(None, true, SCENE_CUT_FORCE_COARSE);
    assert_eq!(coarse.cut_override(SceneViewClass::Camera), SCENE_CUT_FORCE_COARSE);
}

#[test]
fn a_switched_off_micro_field_publishes_no_directory() {
    let mut off = Renderer::new(None, false, SCENE_CUT_AUTO);
    off.set_micro_field_directory(Some((64, 3)));
    assert_eq!(off.micro_field_directory, None);
    let mut on = Renderer::new(None, true, SCENE_CUT_AUTO);
    on.set_micro_field_directory(Some((64, 3)));
    assert_eq!(on.micro_field_directory, Some((64, 3)));
}

#[test]
fn counters_and_host_settings_read_back_what_was_set() {
    let mut renderer = Renderer::new(None, true, SCENE_CUT_AUTO);
    renderer.visibility_counters[0] = 9;
    renderer.page_faults = 4;
    renderer.wind_interaction_resets = 2;
    assert_eq!(renderer.visibility_counters()[0], 9);
    assert_eq!(renderer.gi_visibility_counters(), [0; 8]);
    assert_eq!(renderer.page_faults(), 4);
    assert_eq!(renderer.wind_interaction_resets(), 2);
    renderer.set_live_executor_bins(vec![(1, 2), (3, 4)]);
    renderer.set_live_draw_record_bound(512);
    renderer.record_retained_mesh_bytes(1 << 20);
    renderer.set_directional_shadow(true);
    assert_eq!(renderer.live_executor_bins, vec![(1, 2), (3, 4)]);
    assert_eq!(renderer.live_draw_record_bound, 512);
    assert_eq!(renderer.retained_mesh_cpu_bytes, 1 << 20);
    assert!(renderer.directional_shadow_casting);
    assert_eq!(ViewId::from_index(2), ViewId::Thumbnail);
    assert_eq!(ViewId::AssetPreview.index(), 1);
}

fn point(semaphore: u64, value: u64) -> FrameTimelinePoint {
    FrameTimelinePoint { semaphore, value }
}

#[test]
fn a_second_wait_on_one_semaphore_keeps_the_larger_value() {
    let mut waits = Vec::new();
    merge_timeline_point(&mut waits, point(1, 5));
    merge_timeline_point(&mut waits, point(2, 3));
    merge_timeline_point(&mut waits, point(1, 4));
    assert_eq!(waits, vec![point(1, 5), point(2, 3)]);
    merge_timeline_point(&mut waits, point(2, 8));
    assert_eq!(waits, vec![point(1, 5), point(2, 8)]);
}

#[test]
fn a_batch_waits_on_its_sources_and_compute_on_the_prefix() {
    let prefix = point(1, 10);
    let submitted = [point(1, 11), point(2, 1)];
    let waits = batch_wait_points(RgQueueAssignment::AsyncCompute, &[0, 1], &submitted, prefix).unwrap();
    assert_eq!(waits, vec![point(1, 11), point(2, 1)]);
    let graphics = batch_wait_points(RgQueueAssignment::Graphics, &[1], &submitted, prefix).unwrap();
    assert_eq!(graphics, vec![point(2, 1)]);
    match batch_wait_points(RgQueueAssignment::Graphics, &[2], &submitted, prefix) {
        Err(Error::InvalidUploadData(message)) => {
            assert_eq!(message, "render-graph batch dependency does not precede its consumer")
        },
        other => panic!("unexpected {other:?}"),
    }
}

#[test]
fn the_tail_waits_on_the_last_compute_batch() {
    let queues = [RgQueueAssignment::AsyncCompute, RgQueueAssignment::AsyncCompute, RgQueueAssignment::Graphics];
    let points = [point(2, 1), point(2, 2), point(1, 7)];
    assert_eq!(tail_wait_point(&queues, &points), Some(point(2, 2)));
    assert_eq!(tail_wait_point(&queues[2..], &points[2..]), None);
}

#[test]
fn shadow_arming_records_each_light_space() {
    let mut renderer = Renderer::new(None, true, SCENE_CUT_AUTO);
    let mut view_proj = [0u32; 16];
    for (i, bits) in view_proj.iter_mut().enumerate() {
        *bits = (i as f32).to_bits();
    }
    renderer.set_spot_shadow(view_proj, 3, true);
    renderer.set_point_shadow([1.0f32.to_bits(), 2.0f32.to_bits(), 3.0f32.to_bits()], 50.0f32.to_bits(), 4, false);
    assert_eq!(renderer.spot_shadow.view_proj_bits, view_proj);
    assert_eq!(renderer.spot_shadow.light_index, 3);
    assert!(renderer.spot_shadow.casting);
    assert_eq!(f32::from_bits(renderer.point_shadow.far_plane_bits), 50.0);
    assert_eq!(renderer.point_shadow.light_index, 4);
    assert!(!renderer.point_shadow.casting);
}

#[test]
fn a_frame_submits_its_prefix_each_batch_and_its_tail() {
    assert_eq!(frame_submit_count(0).unwrap(), 2);
    assert_eq!(frame_submit_count(3).unwrap(), 5);
    assert_eq!(frame_submit_count(u32::MAX as usize - 2).unwrap(), u32::MAX);
    match frame_submit_count(usize::MAX) {
        Err(Error::InvalidUploadData(message)) => assert_eq!(message, "render-graph submit count exceeds u32"),
        _ => panic!("a count past u32 is refused"),
    }
}

#[test]
fn attachment_bindings_load_store_and_clear_as_named() {
    let target = RgResource { index: 4 };
    let depth = depth_clear_store(target);
    assert_eq!(depth.load_op, ash::vk::AttachmentLoadOp::CLEAR.as_raw());
    assert_eq!(depth.store_op, ash::vk::AttachmentStoreOp::STORE.as_raw());
    assert_eq!(depth.clear_value, [1.0f32.to_bits(), 0, 0, 0]);
    assert_eq!(depth.resolve, None);
    let color = color_load_store(target);
    assert_eq!((color.load_op, color.store_op), (ash::vk::AttachmentLoadOp::LOAD.as_raw(), ash::vk::AttachmentStoreOp::STORE.as_raw()));
    assert_eq!(color.clear_value, [0; 4]);
    assert_eq!(depth_load_store(target), color);
    let readonly = depth_load_readonly(target);
    assert_eq!(readonly.store_op, ash::vk::AttachmentStoreOp::DONT_CARE.as_raw());
    assert_eq!(readonly.resource, target);
}

#[test]
fn bloom_declares_the_pyramid_then_the_streak_then_the_composite() {
    let mut graph = RenderGraph::new();
    let color = RgResource { index: 0 };
    let mip = |i: u32, w: u32, h: u32| BloomMip { res: RgResource { index: i }, extent: RgExtent2D { width: w, height: h } };
    let mips = [mip(1, 960, 540), mip(2, 480, 270), mip(3, 240, 135)];
    let streak = [
        BloomStreak { key: "bloom-streak-a", mip: mip(4, 960, 540) },
        BloomStreak { key: "bloom-streak-b", mip: mip(5, 960, 540) },
    ];
    let dispatches = add_bloom_passes(&mut graph, color, RgExtent2D { width: 1920, height: 1080 }, &mips, &streak);
    let names: Vec<&str> = graph.passes.iter().map(|p| p.name).collect();
    assert_eq!(
        names,
        vec![
            "bloom-downsample-0",
            "bloom-downsample-1",
            "bloom-downsample-2",
            "bloom-upsample-1",
            "bloom-upsample-0",
            "bloom-streak-a",
            "bloom-streak-b",
            "bloom-composite",
        ]
    );
    let accesses = |k: usize| -> Vec<(u32, RgUsage)> {
        graph.passes[k].accesses.iter().map(|a| (a.resource.index, a.usage)).collect()
    };
    assert_eq!(accesses(0), vec![(0, RgUsage::SampledReadCompute), (1, RgUsage::StorageImageRwCompute)]);
    assert_eq!(accesses(2), vec![(2, RgUsage::SampledReadCompute), (3, RgUsage::StorageImageRwCompute)]);
    assert_eq!(accesses(3), vec![(3, RgUsage::SampledReadCompute), (2, RgUsage::StorageImageRwCompute)]);
    assert_eq!(accesses(6), vec![(4, RgUsage::SampledReadCompute), (5, RgUsage::StorageImageRwCompute)]);
    assert_eq!(
        accesses(7),
        vec![(1, RgUsage::SampledReadCompute), (0, RgUsage::StorageImageRwCompute), (5, RgUsage::SampledReadCompute)]
    );
    assert_eq!(dispatches[2], BloomDispatch { stage: BloomStage::Downsample(2), groups_x: 30, groups_y: 17 });
    assert_eq!(dispatches[7], BloomDispatch { stage: BloomStage::Composite, groups_x: 240, groups_y: 135 });

    let mut plain = RenderGraph::new();
    let d = add_bloom_passes(&mut plain, color, RgExtent2D { width: 16, height: 9 }, &mips[..1], &[]);
    assert_eq!(plain.passes.len(), 2);
    assert_eq!(plain.passes[1].accesses.len(), 2, "no streak, no streak sample");
    assert_eq!(d[1].groups_y, 2);
}

#[test]
fn froxel_fog_imports_its_volumes_through_slots_injects_integrates_then_rests_the_volume() {
    let mut graph = RenderGraph::new();
    let general = ash::vk::ImageLayout::GENERAL.as_raw();
    let read = ash::vk::ImageLayout::SHADER_READ_ONLY_OPTIMAL.as_raw();
    let shadow = RgResource { index: 40 };
    let fog = add_froxel_fog_passes(
        &mut graph,
        FogVolume { image: 1, view: 11, layout: general },
        FogVolume { image: 2, view: 12, layout: read },
        FogVolume { image: 3, view: 13, layout: general },
        7,
        8,
        Some(shadow),
        (160, 90, 64),
    );
    assert_eq!(fog.slots, (0, 1, 2));
    assert_eq!(graph.external_states[1].layout, read);
    assert_eq!((fog.write.index, fog.history.index, fog.integration.index), (0, 1, 2));
    assert_eq!(graph.resources[fog.clusters.index as usize].buffer, 7);
    assert_eq!(graph.resources[fog.lights.index as usize].buffer, 8);
    assert_eq!(graph.passes.len(), 3);
    assert_eq!(graph.passes[0].name, "fog-inject");
    assert_eq!(graph.passes[0].accesses.len(), 5);
    assert_eq!(graph.passes[0].accesses[4].resource, shadow);
    assert_eq!(graph.passes[0].accesses[1].usage, RgUsage::SampledReadCompute);
    assert_eq!(graph.passes[1].name, "fog-integrate");
    assert_eq!(graph.passes[1].accesses[1].resource, fog.integration);
    assert_eq!(graph.passes[2].name, "fog-integration-read");
    assert_eq!(graph.passes[2].accesses.len(), 1);
    assert_eq!(graph.passes[2].accesses[0].resource, fog.integration);
    assert_eq!(graph.passes[2].accesses[0].usage, RgUsage::SampledReadCompute);
    assert_eq!(fog.inject_groups, (20, 12, 16));
    assert_eq!(fog.integrate_groups, (20, 12));
}

#[test]
fn a_publish_readback_waits_on_the_offscreens_last_use_and_needs_a_sized_slot() {
    assert_eq!(
        offscreen_source_scope(ImageLayout::SHADER_READ_ONLY_OPTIMAL.as_raw()),
        (PipelineStageFlags2::FRAGMENT_SHADER.as_raw(), AccessFlags2::SHADER_SAMPLED_READ.as_raw())
    );
    assert_eq!(
        offscreen_source_scope(ImageLayout::COLOR_ATTACHMENT_OPTIMAL.as_raw()),
        (
            (PipelineStageFlags2::COLOR_ATTACHMENT_OUTPUT | PipelineStageFlags2::COMPUTE_SHADER).as_raw(),
            (AccessFlags2::COLOR_ATTACHMENT_WRITE | AccessFlags2::SHADER_STORAGE_WRITE).as_raw()
        )
    );
    assert_eq!(
        offscreen_source_scope(ImageLayout::GENERAL.as_raw()),
        (PipelineStageFlags2::TOP_OF_PIPE.as_raw(), AccessFlags2::NONE.as_raw())
    );
    assert!(shm_copy_runs((1280, 720), Some((1920, 1080)), (1920, 1080)));
    assert!(!shm_copy_runs((1280, 720), Some((1280, 720)), (1920, 1080)), "a stale slot waits a frame");
    assert!(!shm_copy_runs((1280, 720), None, (1920, 1080)));
    assert!(!shm_copy_runs((0, 720), Some((1920, 1080)), (1920, 1080)));
}

#[test]
fn host_values_name_the_cut_pin_and_only_off_turns_a_switch_off() {
    assert_eq!(cut_override_from(Some("coarse")), SCENE_CUT_FORCE_COARSE);
    assert_eq!(cut_override_from(Some("fine")), SCENE_CUT_FORCE_FINE);
    assert_eq!(cut_override_from(Some("Coarse")), SCENE_CUT_AUTO);
    assert_eq!(cut_override_from(Some("")), SCENE_CUT_AUTO);
    assert_eq!(cut_override_from(None), SCENE_CUT_AUTO);
    assert!(!switch_on(Some("off")));
    assert!(switch_on(Some("on")));
    assert!(switch_on(Some("of")));
    assert!(switch_on(Some("offf")));
    assert!(switch_on(None));
    assert!(text_is("é", "é") && !text_is("é", "e"));
}

#[test]
fn cut_pins_only_ever_hold_the_three_settings() {
    let mut pins = CutPins::uniform(SCENE_CUT_FORCE_COARSE);
    assert_eq!((pins.get(0), pins.get(1), pins.get(2)), (SCENE_CUT_FORCE_COARSE, SCENE_CUT_FORCE_COARSE, SCENE_CUT_FORCE_COARSE));
    pins.set(1, 99);
    assert_eq!(pins.get(1), SCENE_CUT_AUTO);
    pins.set(2, SCENE_CUT_FORCE_FINE);
    assert_eq!(pins.get(2), SCENE_CUT_FORCE_FINE);
    assert_eq!(CutPins::uniform(7).get(0), SCENE_CUT_AUTO);
}

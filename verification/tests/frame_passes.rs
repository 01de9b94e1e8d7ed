use ash::vk;
use rendering::render_graph::graph::RenderGraph;
use rendering::render_graph::{RgExternalBufferState, RgExternalState, RgQueuePreference, RgResource, RgUsage};
use rendering::renderer::clouds::{
    add_cloud_passes, add_cloud_prepare_passes, cloud_mode, CloudImage, CloudNoiseImages, CloudMode, CloudPipelines, CloudPrepared, CloudViewImages,
};
use rendering::renderer::frame_plan::{frame_wants, FrameFeatures, FrameView};
use rendering::renderer::gi::{
    add_ddgi_passes, add_gdf_passes, add_restir_passes, DdgiLayout, GdfDispatch, GdfRegion, GiImage, RestirGate,
};

fn image(n: u64) -> GiImage {
    GiImage { image: n, view: 100 + n, layout: vk::ImageLayout::GENERAL.as_raw() }
}

fn accesses(graph: &RenderGraph, pass: usize) -> Vec<(u32, RgUsage)> {
    graph.passes[pass].accesses.iter().map(|a| (a.resource.index, a.usage)).collect()
}

fn names(graph: &RenderGraph) -> Vec<&'static str> {
    graph.passes.iter().map(|p| p.name).collect()
}

#[test]
fn gdf_build_imports_buffers_then_cascade_pairs_then_albedo_on_async_compute() {
    let mut graph = RenderGraph::new();
    let gdf = add_gdf_passes(
        &mut graph,
        true,
        10,
        RgExternalBufferState::new(),
        20,
        30,
        &[(image(1), image(2)), (image(3), image(4))],
        image(5),
        &[GdfRegion { cascade: 0, size: (9, 4, 1) }, GdfRegion { cascade: 1, size: (64, 64, 64) }],
        1000,
    )
    .expect("pipelines ready");
    assert_eq!((gdf.cull.index, gdf.instances.index, gdf.meta.index), (0, 1, 2));
    assert_eq!(gdf.cull_slot, 0);
    assert_eq!(graph.external_buffer_states.len(), 1);
    assert_eq!(gdf.cascades.iter().map(|r| r.index).collect::<Vec<_>>(), vec![3, 5]);
    assert_eq!(gdf.occupancy.iter().map(|r| r.index).collect::<Vec<_>>(), vec![4, 6]);
    assert_eq!((gdf.albedo.index, gdf.albedo_slot), (7, 4));
    assert_eq!(gdf.cascade_slots, vec![0, 2]);
    assert_eq!(gdf.occupancy_slots, vec![1, 3]);
    assert_eq!(graph.resources[5].image, 3);
    assert_eq!(graph.resources[5].view, 103);
    assert_eq!(graph.resources[1].buffer, 20);
    assert_eq!(names(&graph), vec!["gdf-cull", "gdf-composite"]);
    assert!(graph.passes.iter().all(|p| p.queue == RgQueuePreference::AsyncCompute));
    assert_eq!(
        accesses(&graph, 0),
        vec![(1, RgUsage::StorageReadCompute), (2, RgUsage::StorageReadCompute), (0, RgUsage::StorageWriteCompute)]
    );
    assert_eq!(
        accesses(&graph, 1),
        vec![
            (0, RgUsage::StorageReadCompute),
            (1, RgUsage::StorageReadCompute),
            (3, RgUsage::StorageImageRwCompute),
            (5, RgUsage::StorageImageRwCompute),
            (4, RgUsage::StorageImageRwCompute),
            (6, RgUsage::StorageImageRwCompute),
            (7, RgUsage::StorageImageRwCompute),
        ]
    );
    assert_eq!(gdf.cull_groups, 16);
    assert_eq!(
        gdf.dispatches,
        vec![GdfDispatch { cascade: 0, groups: (3, 1, 1) }, GdfDispatch { cascade: 1, groups: (16, 16, 16) }]
    );
}

#[test]
fn gdf_build_without_pipelines_declares_nothing() {
    let mut graph = RenderGraph::new();
    let gdf = add_gdf_passes(&mut graph, false, 10, RgExternalBufferState::new(), 20, 30, &[], image(5), &[], 64);
    assert!(gdf.is_none());
    assert!(graph.passes.is_empty() && graph.resources.is_empty() && graph.external_buffer_states.is_empty());
}

#[test]
fn restir_runs_only_behind_an_open_gate_and_serializes_through_its_reservoirs() {
    let open = RestirGate { pipelines_ready: true, tlas_ready: true, gbuffer_ran: true, cull_ran: true, reservoirs_ready: true };
    let motion = RgResource { index: 9 };
    let mut graph = RenderGraph::new();
    let restir = add_restir_passes(&mut graph, open, Some(image(1)), Some(77), Some(motion), (1920, 1081))
        .expect("gate open");
    assert_eq!((restir.sentinel.index, restir.radiance.index, restir.radiance_slot), (0, 1, 0));
    assert_eq!(graph.resources[0].buffer, 77);
    assert_eq!(restir.groups, (240, 136));
    assert_eq!(names(&graph), vec!["restir-initial", "restir-reuse", "restir-resolve"]);
    assert_eq!(accesses(&graph, 0), vec![(0, RgUsage::StorageWriteCompute)]);
    assert_eq!(accesses(&graph, 1), vec![(0, RgUsage::StorageReadCompute), (9, RgUsage::SampledReadCompute)]);
    assert_eq!(accesses(&graph, 2), vec![(0, RgUsage::StorageReadCompute), (1, RgUsage::StorageImageRwCompute)]);

    let mut closed = RenderGraph::new();
    let no_tlas = RestirGate { tlas_ready: false, ..open };
    assert!(add_restir_passes(&mut closed, no_tlas, Some(image(1)), Some(77), None, (8, 8)).is_none());
    assert!(add_restir_passes(&mut closed, open, None, Some(77), None, (8, 8)).is_none());
    assert!(add_restir_passes(&mut closed, open, Some(image(1)), None, None, (8, 8)).is_none());
    assert!(closed.passes.is_empty() && closed.resources.is_empty() && closed.external_states.is_empty());
}

#[test]
fn ddgi_trace_samples_the_far_field_only_when_the_distance_field_was_built() {
    let layout = DdgiLayout { rays_per_probe: 256, probe_budget: 512, irradiance: (130, 66), distance: (258, 130) };
    let sky = RgResource { index: 0 };
    let mut graph = RenderGraph::new();
    graph.import_buffer(1, None);
    let ddgi = add_ddgi_passes(&mut graph, true, image(1), image(2), image(3), 40, 50, sky, None, layout).expect("ready");
    assert_eq!((ddgi.rays.index, ddgi.irradiance.index, ddgi.distance.index), (1, 2, 3));
    assert_eq!((ddgi.instances.index, ddgi.meta.index), (4, 5));
    assert_eq!(ddgi.slots, (0, 1, 2));
    assert_eq!(names(&graph), vec!["ddgi-trace", "ddgi-blend-irr", "ddgi-blend-dist", "ddgi-border"]);
    assert_eq!(
        accesses(&graph, 0),
        vec![
            (4, RgUsage::StorageReadCompute),
            (5, RgUsage::StorageReadCompute),
            (2, RgUsage::SampledReadCompute),
            (1, RgUsage::StorageImageRwCompute),
            (0, RgUsage::StorageReadCompute),
        ]
    );
    assert_eq!(accesses(&graph, 3), vec![(2, RgUsage::StorageImageRwCompute)]);
    assert_eq!(ddgi.trace_groups, (4, 512, 1));
    assert_eq!(ddgi.irradiance_groups, (17, 9));
    assert_eq!(ddgi.distance_groups, (33, 17));

    let mut with_field = RenderGraph::new();
    let gdf = add_gdf_passes(
        &mut with_field,
        true,
        10,
        RgExternalBufferState::new(),
        40,
        50,
        &[(image(4), image(5))],
        image(6),
        &[],
        64,
    )
    .expect("ready");
    let ddgi = add_ddgi_passes(&mut with_field, true, image(1), image(2), image(3), 40, 50, sky, Some(&gdf), layout)
        .expect("ready");
    assert_eq!((ddgi.instances.index, ddgi.meta.index), (gdf.instances.index, gdf.meta.index));
    let trace = accesses(&with_field, 2);
    assert_eq!(trace.len(), 8);
    assert_eq!(trace[5..], [(3, RgUsage::SampledReadCompute), (4, RgUsage::SampledReadCompute), (5, RgUsage::SampledReadCompute)]);

    let mut off = RenderGraph::new();
    assert!(add_ddgi_passes(&mut off, false, image(1), image(2), image(3), 40, 50, sky, None, layout).is_none());
    assert!(off.passes.is_empty() && off.resources.is_empty());
}

fn cloud_image(n: u64) -> CloudImage {
    let layout = vk::ImageLayout::SHADER_READ_ONLY_OPTIMAL.as_raw();
    CloudImage { image: n, view: 200 + n, layout, state: RgExternalState::new(layout) }
}

fn cloud_inputs(parity: usize) -> (CloudPrepared, CloudViewImages) {
    let r = |index: u32| RgResource { index };
    let prepared = CloudPrepared { base: r(0), detail: r(1), curl: r(2), weather: r(3), shadow: r(4), slots: (0, 1, 2, 3, 4), weather_groups: 32, shadow_groups: 64 };
    let view = CloudViewImages {
        reduced: [cloud_image(1), cloud_image(2)],
        reduced_depth: cloud_image(3),
        full_color: cloud_image(4),
        full_depth: cloud_image(5),
        parity,
        reduced_extent: (480, 270),
        published_extent: (1920, 1080),
    };
    (prepared, view)
}

#[test]
fn lit_clouds_raymarch_into_the_parity_history_and_leave_every_image_readable() {
    let lit = CloudPipelines { raymarch: true, reconstruct: true, upscale: true, debug: false };
    let (prepared, view) = cloud_inputs(1);
    let color = RgResource { index: 10 };
    let depth = RgResource { index: 11 };
    let motion = RgResource { index: 12 };
    let sky = RgResource { index: 13 };
    let mut graph = RenderGraph::new();
    for k in 0..14 {
        graph.import_buffer(1000 + k, None);
    }
    let clouds = add_cloud_passes(&mut graph, lit, Some(prepared), color, depth, Some(motion), sky, view).expect("prepared");
    assert_eq!(clouds.mode, CloudMode::Lit);
    assert!(clouds.temporal);
    assert_eq!(clouds.reduced, [Some(0), Some(1)]);
    assert_eq!((clouds.reduced_depth, clouds.full_color, clouds.full_depth), (Some(2), Some(3), Some(4)));
    assert_eq!(clouds.full_color_resource, Some(RgResource { index: 17 }));
    assert_eq!(clouds.full_depth_resource, Some(RgResource { index: 18 }));
    assert_eq!(clouds.reduced_groups, (60, 34));
    assert_eq!(clouds.published_groups, (240, 135));
    assert_eq!(names(&graph), vec!["cloud-raymarch", "cloud-reconstruct", "cloud-upscale", "cloud-history-read"]);
    let raymarch = accesses(&graph, 0);
    assert_eq!(raymarch[0], (15, RgUsage::StorageImageRwCompute));
    assert_eq!(raymarch[8], (13, RgUsage::StorageReadCompute));
    assert_eq!(
        accesses(&graph, 1),
        vec![
            (15, RgUsage::StorageImageRwCompute),
            (14, RgUsage::SampledReadCompute),
            (16, RgUsage::SampledReadCompute),
            (12, RgUsage::SampledReadCompute),
        ]
    );
    assert_eq!(accesses(&graph, 3).len(), 5);
    assert_eq!(graph.external_states[3], RgExternalState::new(vk::ImageLayout::SHADER_READ_ONLY_OPTIMAL.as_raw()));
}

#[test]
fn clouds_fall_back_to_debug_or_parked_and_need_prepared_resources() {
    let (prepared, view) = cloud_inputs(0);
    let r = |index: u32| RgResource { index };
    let debug = CloudPipelines { raymarch: true, reconstruct: true, upscale: true, debug: true };
    assert_eq!(cloud_mode(debug, true), CloudMode::Debug);
    let mut graph = RenderGraph::new();
    let clouds = add_cloud_passes(&mut graph, debug, Some(prepared), r(10), r(11), Some(r(12)), r(13), view).expect("prepared");
    assert_eq!((clouds.mode, clouds.temporal, clouds.full_color), (CloudMode::Debug, false, None));
    assert_eq!(names(&graph), vec!["cloud-density-debug"]);
    assert_eq!(accesses(&graph, 0)[0], (10, RgUsage::StorageImageRwCompute));
    assert!(graph.resources.is_empty());

    let no_motion = CloudPipelines { debug: false, ..debug };
    assert_eq!(cloud_mode(no_motion, false), CloudMode::Parked);
    let mut parked = RenderGraph::new();
    let clouds = add_cloud_passes(&mut parked, no_motion, Some(prepared), r(10), r(11), None, r(13), view).expect("prepared");
    assert_eq!(clouds.mode, CloudMode::Parked);
    assert_eq!(names(&parked), vec!["cloud-resources-read"]);
    assert_eq!(accesses(&parked, 0).len(), 5);

    let mut none = RenderGraph::new();
    assert!(add_cloud_passes(&mut none, debug, None, r(10), r(11), None, r(13), view).is_none());
    assert!(none.passes.is_empty());
}

fn plain_features() -> FrameFeatures {
    FrameFeatures {
        depth_prepass: true,
        cluster_dispatch_pending: false,
        skin_dispatches: false,
        morph_dispatches: false,
        shadow_pages: false,
        gbuffer_ready: true,
        ssao: false,
        contact: false,
        ssgi: false,
        ssr: false,
        screen_effects_prepass: false,
        rt_reflections: false,
        restir: false,
        sky_occlusion: false,
        ddgi: false,
        gdf: false,
        taa: false,
        fxaa: false,
        motion_targets: true,
        scratch: true,
        bloom: false,
        fog: false,
        volumetric_fog: false,
        aerial_perspective: false,
        atmosphere_live: false,
        clouds: false,
        cloud_weather_dirty: false,
        cloud_shadows: false,
        view: FrameView::Lit,
        grid: false,
        overlay: false,
    }
}

#[test]
fn restir_and_reflections_force_the_gbuffer_prepass_and_taa_forces_motion() {
    let plain = frame_wants(plain_features());
    assert!(plain.depth_prepass && !plain.gbuffer && !plain.motion && !plain.fog);

    let restir = frame_wants(FrameFeatures { restir: true, ..plain_features() });
    assert!(restir.restir && restir.gbuffer && !restir.copy_color);

    let reflections = frame_wants(FrameFeatures { rt_reflections: true, ..plain_features() });
    assert!(reflections.gbuffer && reflections.copy_color && !reflections.ssr);

    let not_ready = frame_wants(FrameFeatures { restir: true, gbuffer_ready: false, ..plain_features() });
    assert!(!not_ready.restir && !not_ready.gbuffer);

    let taa = frame_wants(FrameFeatures { taa: true, ..plain_features() });
    assert!(taa.motion && taa.taa && taa.reactive);
    let no_targets = frame_wants(FrameFeatures { taa: true, motion_targets: false, scratch: false, ..plain_features() });
    assert!(!no_targets.motion && !no_targets.taa && no_targets.reactive);
}

#[test]
fn the_cloud_density_view_replaces_the_lit_clouds_and_the_fog_composite() {
    let lit = frame_wants(FrameFeatures { clouds: true, cloud_shadows: true, ..plain_features() });
    assert!(lit.cloud_lit && !lit.cloud_debug && lit.fog && lit.motion && lit.cloud_shadow);
    let debug = frame_wants(FrameFeatures { clouds: true, view: FrameView::CloudDensity, ..plain_features() });
    assert!(debug.cloud_debug && !debug.cloud_lit && !debug.fog && !debug.motion);
    let fog = frame_wants(FrameFeatures { fog: true, volumetric_fog: true, ..plain_features() });
    assert!(fog.fog && fog.froxel_fog && !fog.aerial);
    let wire = frame_wants(FrameFeatures { view: FrameView::LitWireframe, ..plain_features() });
    assert!(wire.wireframe_overlay && !wire.motion_visualize);
}

#[test]
fn cloud_preparation_imports_the_shared_images_then_bakes_weather_and_shadow_on_demand() {
    let images = CloudNoiseImages {
        base: cloud_image(1),
        detail: cloud_image(2),
        curl: cloud_image(3),
        weather: cloud_image(4),
        shadow: cloud_image(5),
    };
    let mut graph = RenderGraph::new();
    graph.import_buffer(77, None);
    let prepared = add_cloud_prepare_passes(&mut graph, true, images, true, true, 256, 513).expect("clouds on");
    assert_eq!(
        (prepared.base.index, prepared.detail.index, prepared.curl.index, prepared.weather.index, prepared.shadow.index),
        (1, 2, 3, 4, 5)
    );
    assert_eq!(prepared.slots, (0, 1, 2, 3, 4));
    assert_eq!((prepared.weather_groups, prepared.shadow_groups), (32, 65));
    assert_eq!(graph.resources[4].image, 4);
    assert_eq!(graph.resources[4].view, 204);
    assert_eq!(names(&graph), vec!["cloud-weather", "cloud-shadow"]);
    assert_eq!(accesses(&graph, 0), vec![(4, RgUsage::StorageImageRwCompute)]);
    assert_eq!(
        accesses(&graph, 1),
        vec![
            (5, RgUsage::StorageImageRwCompute),
            (1, RgUsage::SampledReadCompute),
            (2, RgUsage::SampledReadCompute),
            (3, RgUsage::SampledReadCompute),
            (4, RgUsage::SampledReadCompute),
        ]
    );

    let mut clean = RenderGraph::new();
    add_cloud_prepare_passes(&mut clean, true, images, false, true, 256, 512).expect("clouds on");
    assert_eq!(names(&clean), vec!["cloud-shadow"]);
    let mut still = RenderGraph::new();
    add_cloud_prepare_passes(&mut still, true, images, false, false, 256, 512).expect("clouds on");
    assert!(still.passes.is_empty());
    assert_eq!(still.resources.len(), 5);
    let mut off = RenderGraph::new();
    assert!(add_cloud_prepare_passes(&mut off, false, images, true, true, 256, 512).is_none());
    assert!(off.resources.is_empty() && off.passes.is_empty() && off.external_states.is_empty());
}

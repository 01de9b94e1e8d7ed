//! The volumetric clouds' render-graph passes. The frame's cloud resources (noise volumes,
//! weather map, shadow cascades) were prepared earlier; here the renderer chooses between the
//! density debug view, the lit temporal chain (raymarch at reduced resolution, temporal
//! reconstruct, depth-aware upscale) and, when neither can run, a pass that only keeps the
//! prepared resources' layouts in step. What the passes bind and push is recorded beside the
//! graph.
use vstd::prelude::*;
use crate::render_graph::{RgExternalState, RgResource, RgResourceView, RgUsage};
use crate::render_graph::graph::{RenderGraph, spec_imported_image};
use crate::vk_values::ASPECT_COLOR;
use super::graph_util::{add_compute_pass, cover, spec_compute_pass, spec_cover};

verus! {

/// The cloud resources prepared for this frame and their cross-frame slots.
#[derive(Clone, Copy, Debug, PartialEq, Eq)]
pub struct CloudPrepared {
    /// The base-shape noise volume.
    pub base: RgResource,
    /// The detail noise volume.
    pub detail: RgResource,
    /// The curl-noise texture.
    pub curl: RgResource,
    /// The weather map.
    pub weather: RgResource,
    /// The cloud-shadow cascades.
    pub shadow: RgResource,
    /// The slots of the base, detail, curl, weather and shadow images.
    pub slots: (usize, usize, usize, usize, usize),
    /// The weather bake's workgroups across and down: 8x8 texels each.
    pub weather_groups: u32,
    /// The shadow bake's workgroups across and down per cascade: 8x8 texels each.
    pub shadow_groups: u32,
}

/// Which cloud pipelines resolved this frame.
#[derive(Clone, Copy, Debug, PartialEq, Eq, Structural)]
pub struct CloudPipelines {
    /// The reduced-resolution raymarch.
    pub raymarch: bool,
    /// The temporal reconstruct.
    pub reconstruct: bool,
    /// The depth-aware upscale.
    pub upscale: bool,
    /// The density debug view.
    pub debug: bool,
}

/// A per-view cloud image to import: its handles, layout and the cross-frame state it carries.
#[derive(Clone, Copy, Debug, PartialEq, Eq)]
pub struct CloudImage {
    /// The raw image handle.
    pub image: u64,
    /// The raw image-view handle.
    pub view: u64,
    /// The layout the image is in at import.
    pub layout: i32,
    /// The state its cross-frame slot starts from.
    pub state: RgExternalState,
}

/// The per-view images of the lit chain and the extents it runs at.
#[derive(Clone, Copy, Debug, PartialEq, Eq)]
pub struct CloudViewImages {
    /// The two reduced-resolution history images; this frame writes `reduced[parity]`.
    pub reduced: [CloudImage; 2],
    /// The reduced-resolution depth.
    pub reduced_depth: CloudImage,
    /// The full-resolution cloud color.
    pub full_color: CloudImage,
    /// The full-resolution cloud depth.
    pub full_depth: CloudImage,
    /// The history image this frame writes: 0 or 1.
    pub parity: usize,
    /// The reduced resolution.
    pub reduced_extent: (u32, u32),
    /// The published (full) resolution.
    pub published_extent: (u32, u32),
}

/// How the clouds run this frame.
#[derive(Clone, Copy, Debug, PartialEq, Eq, Structural)]
pub enum CloudMode {
    /// Nothing can draw: only the prepared resources' layouts are kept in step.
    Parked,
    /// The density debug view.
    Debug,
    /// The lit temporal chain.
    Lit,
}

/// The mode: the debug view when its pipeline resolved, else the lit chain when all three of
/// its pipelines resolved and a motion target exists, else parked.
pub open spec fn spec_cloud_mode(pipelines: CloudPipelines, has_motion: bool) -> CloudMode {
    if pipelines.debug {
        CloudMode::Debug
    } else if pipelines.raymarch && pipelines.reconstruct && pipelines.upscale && has_motion {
        CloudMode::Lit
    } else {
        CloudMode::Parked
    }
}

/// Chooses how the clouds run this frame.
pub fn cloud_mode(pipelines: CloudPipelines, has_motion: bool) -> (r: CloudMode)
    ensures
        r == spec_cloud_mode(pipelines, has_motion),
{
    if pipelines.debug {
        CloudMode::Debug
    } else if pipelines.raymarch && pipelines.reconstruct && pipelines.upscale && has_motion {
        CloudMode::Lit
    } else {
        CloudMode::Parked
    }
}

/// What the cloud passes declared: the cross-frame slots the frame writes back, the lit chain's
/// full-resolution outputs, and the workgroups of its dispatches.
#[derive(Clone, Copy, Debug, PartialEq, Eq)]
pub struct CloudGraph {
    /// The mode the clouds ran in.
    pub mode: CloudMode,
    /// The slots of the two reduced history images (lit chain only).
    pub reduced: [Option<usize>; 2],
    /// The reduced depth's slot (lit chain only).
    pub reduced_depth: Option<usize>,
    /// The full-resolution color's slot (lit chain only).
    pub full_color: Option<usize>,
    /// The full-resolution depth's slot (lit chain only).
    pub full_depth: Option<usize>,
    /// The full-resolution color the composite samples (lit chain only).
    pub full_color_resource: Option<RgResource>,
    /// The full-resolution depth the composite samples (lit chain only).
    pub full_depth_resource: Option<RgResource>,
    /// Whether the temporal chain ran.
    pub temporal: bool,
    /// The reduced-resolution dispatches' workgroups: 8x8 pixels each.
    pub reduced_groups: (u32, u32),
    /// The full-resolution dispatches' workgroups: 8x8 pixels each.
    pub published_groups: (u32, u32),
}

/// The table entry of `img` imported through a fresh slot `slot` that holds its carried state.
pub open spec fn spec_state_import(img: CloudImage, slot: usize) -> RgResourceView {
    spec_imported_image(
        img.image,
        img.view,
        ASPECT_COLOR,
        img.layout,
        Some(slot),
        Seq::new((slot + 1) as nat, |i: int| img.state),
    )
}

/// Allocates a cross-frame slot holding `img`'s carried state and imports the image through it.
fn import_with_state(graph: &mut RenderGraph, img: CloudImage) -> (r: (RgResource, usize))
    requires
        old(graph).resources@.len() < u32::MAX,
        old(graph).external_states@.len() < usize::MAX,
    ensures
        r.1 == old(graph).external_states@.len(),
        final(graph).external_states@ == old(graph).external_states@.push(img.state),
        r.0.index == old(graph).resources@.len(),
        final(graph).resources@.len() == old(graph).resources@.len() + 1,
        forall|k: int| 0 <= k < old(graph).resources@.len() ==> #[trigger] final(graph).resources@[k] == old(graph).resources@[k],
        final(graph).resources@[r.0.index as int]@ == spec_state_import(img, r.1),
        final(graph).passes@ == old(graph).passes@,
        final(graph).external_buffer_states@ == old(graph).external_buffer_states@,
{
    let slot = graph.alloc_external_state(img.state);
    let res = graph.import_image(img.image, img.view, ASPECT_COLOR, img.layout, Some(slot));
    proof {
        let carried = Seq::new((slot + 1) as nat, |i: int| img.state);
        assert(carried[slot as int] == graph.external_states@[slot as int]);
    }
    (res, slot)
}

/// The parked pass's accesses: it samples every prepared resource.
pub open spec fn spec_cloud_parked_accesses(p: CloudPrepared) -> Seq<(RgResource, RgUsage)> {
    seq![
        (p.base, RgUsage::SampledReadCompute),
        (p.detail, RgUsage::SampledReadCompute),
        (p.curl, RgUsage::SampledReadCompute),
        (p.weather, RgUsage::SampledReadCompute),
        (p.shadow, RgUsage::SampledReadCompute),
    ]
}

/// The debug view's accesses: it draws into the scene color over the scene depth from the
/// noise volumes and the weather map.
pub open spec fn spec_cloud_debug_accesses(p: CloudPrepared, color: RgResource, depth: RgResource) -> Seq<
    (RgResource, RgUsage),
> {
    seq![
        (color, RgUsage::StorageImageRwCompute),
        (depth, RgUsage::SampledReadCompute),
        (p.base, RgUsage::SampledReadCompute),
        (p.detail, RgUsage::SampledReadCompute),
        (p.curl, RgUsage::SampledReadCompute),
        (p.weather, RgUsage::SampledReadCompute),
    ]
}

/// The lit chain's images in the order they are imported: the two reduced history images, the
/// reduced depth, the full-resolution color and depth.
pub open spec fn spec_cloud_lit_images(v: CloudViewImages) -> Seq<CloudImage> {
    seq![v.reduced[0], v.reduced[1], v.reduced_depth, v.full_color, v.full_depth]
}

/// The resource of the `k`th lit-chain image when the chain's images start at table index `m`.
pub open spec fn spec_lit_res(m: int, k: int) -> RgResource {
    RgResource { index: (m + k) as u32 }
}

/// The raymarch's accesses: it writes this frame's reduced image and the reduced depth, and
/// samples the scene depth, every prepared resource and the sky's spherical harmonics.
pub open spec fn spec_cloud_raymarch_accesses(
    p: CloudPrepared,
    m: int,
    parity: int,
    depth: RgResource,
    sky_sh: RgResource,
) -> Seq<(RgResource, RgUsage)> {
    seq![
        (spec_lit_res(m, parity), RgUsage::StorageImageRwCompute),
        (spec_lit_res(m, 2), RgUsage::StorageImageRwCompute),
        (depth, RgUsage::SampledReadCompute),
        (p.base, RgUsage::SampledReadCompute),
        (p.detail, RgUsage::SampledReadCompute),
        (p.curl, RgUsage::SampledReadCompute),
        (p.weather, RgUsage::SampledReadCompute),
        (p.shadow, RgUsage::SampledReadCompute),
        (sky_sh, RgUsage::StorageReadCompute),
    ]
}

/// The reconstruct's accesses: it blends this frame's reduced image with last frame's through
/// the motion target and the reduced depth.
pub open spec fn spec_cloud_reconstruct_accesses(m: int, parity: int, motion: RgResource) -> Seq<(RgResource, RgUsage)> {
    seq![
        (spec_lit_res(m, parity), RgUsage::StorageImageRwCompute),
        (spec_lit_res(m, 1 - parity), RgUsage::SampledReadCompute),
        (spec_lit_res(m, 2), RgUsage::SampledReadCompute),
        (motion, RgUsage::SampledReadCompute),
    ]
}

/// The upscale's accesses: it writes the full-resolution color and depth from this frame's
/// reduced image, the reduced depth and the scene depth.
pub open spec fn spec_cloud_upscale_accesses(m: int, parity: int, depth: RgResource) -> Seq<(RgResource, RgUsage)> {
    seq![
        (spec_lit_res(m, 3), RgUsage::StorageImageRwCompute),
        (spec_lit_res(m, parity), RgUsage::SampledReadCompute),
        (spec_lit_res(m, 2), RgUsage::SampledReadCompute),
        (depth, RgUsage::SampledReadCompute),
        (spec_lit_res(m, 4), RgUsage::StorageImageRwCompute),
    ]
}

/// The history pass's accesses: it leaves every lit-chain image readable for the next frame.
pub open spec fn spec_cloud_history_accesses(m: int) -> Seq<(RgResource, RgUsage)> {
    seq![
        (spec_lit_res(m, 0), RgUsage::SampledReadCompute),
        (spec_lit_res(m, 1), RgUsage::SampledReadCompute),
        (spec_lit_res(m, 2), RgUsage::SampledReadCompute),
        (spec_lit_res(m, 3), RgUsage::SampledReadCompute),
        (spec_lit_res(m, 4), RgUsage::SampledReadCompute),
    ]
}

/// Declares the cloud passes. Without prepared resources nothing is declared. Otherwise, by
/// [`cloud_mode`]: parked adds `cloud-resources-read`; the debug view adds
/// `cloud-density-debug`; the lit chain imports its five per-view images (each through a new
/// slot holding its carried state) and adds `cloud-raymarch`, `cloud-reconstruct`,
/// `cloud-upscale` and `cloud-history-read`.
pub fn add_cloud_passes(
    graph: &mut RenderGraph,
    pipelines: CloudPipelines,
    prepared: Option<CloudPrepared>,
    color: RgResource,
    depth: RgResource,
    motion: Option<RgResource>,
    sky_sh: RgResource,
    view: CloudViewImages,
) -> (r: Option<CloudGraph>)
    requires
        view.parity < 2,
        old(graph).resources@.len() + 5 < u32::MAX,
        old(graph).external_states@.len() + 5 < usize::MAX,
    ensures
        r is Some <==> prepared is Some,
        final(graph).external_buffer_states@ == old(graph).external_buffer_states@,
        r is None ==> final(graph).resources@ == old(graph).resources@ && final(graph).passes@ == old(graph).passes@
            && final(graph).external_states@ == old(graph).external_states@,
        r matches Some(g) ==> ({
            let prep = prepared->0;
            let n = old(graph).external_states@.len() as int;
            let m = old(graph).resources@.len() as int;
            let p = old(graph).passes@.len() as int;
            let parity = view.parity as int;
            &&& g.mode == spec_cloud_mode(pipelines, motion is Some)
            &&& g.temporal == (g.mode == CloudMode::Lit)
            &&& g.reduced_groups == (spec_cover(view.reduced_extent.0, 8), spec_cover(view.reduced_extent.1, 8))
            &&& g.published_groups == (spec_cover(view.published_extent.0, 8), spec_cover(view.published_extent.1, 8))
            &&& forall|k: int| 0 <= k < p ==> #[trigger] final(graph).passes@[k] == old(graph).passes@[k]
            &&& g.mode != CloudMode::Lit ==> {
                &&& final(graph).resources@ == old(graph).resources@
                &&& final(graph).external_states@ == old(graph).external_states@
                &&& g.reduced == [None::<usize>, None::<usize>]
                &&& g.reduced_depth is None && g.full_color is None && g.full_depth is None
                &&& g.full_color_resource is None && g.full_depth_resource is None
                &&& final(graph).passes@.len() == p + 1
            }
            &&& g.mode == CloudMode::Parked ==> spec_compute_pass(final(graph).passes@[p], "cloud-resources-read"@,
                spec_cloud_parked_accesses(prep))
            &&& g.mode == CloudMode::Debug ==> spec_compute_pass(final(graph).passes@[p], "cloud-density-debug"@,
                spec_cloud_debug_accesses(prep, color, depth))
            &&& g.mode == CloudMode::Lit ==> {
                let images = spec_cloud_lit_images(view);
                &&& final(graph).external_states@.len() == n + 5
                &&& forall|k: int| 0 <= k < n ==> #[trigger] final(graph).external_states@[k] == old(graph).external_states@[k]
                &&& final(graph).resources@.len() == m + 5
                &&& forall|k: int| 0 <= k < m ==> #[trigger] final(graph).resources@[k] == old(graph).resources@[k]
                &&& forall|k: int| 0 <= k < 5 ==> #[trigger] final(graph).external_states@[n + k] == images[k].state
                    && final(graph).resources@[m + k]@ == spec_state_import(images[k], (n + k) as usize)
                &&& g.reduced == [Some(n as usize), Some((n + 1) as usize)]
                &&& g.reduced_depth == Some((n + 2) as usize)
                &&& g.full_color == Some((n + 3) as usize)
                &&& g.full_depth == Some((n + 4) as usize)
                &&& g.full_color_resource == Some(spec_lit_res(m, 3))
                &&& g.full_depth_resource == Some(spec_lit_res(m, 4))
                &&& final(graph).passes@.len() == p + 4
                &&& spec_compute_pass(final(graph).passes@[p], "cloud-raymarch"@,
                    spec_cloud_raymarch_accesses(prep, m, parity, depth, sky_sh))
                &&& spec_compute_pass(final(graph).passes@[p + 1], "cloud-reconstruct"@,
                    spec_cloud_reconstruct_accesses(m, parity, motion->0))
                &&& spec_compute_pass(final(graph).passes@[p + 2], "cloud-upscale"@,
                    spec_cloud_upscale_accesses(m, parity, depth))
                &&& spec_compute_pass(final(graph).passes@[p + 3], "cloud-history-read"@, spec_cloud_history_accesses(m))
            }
        }),
{
    let prep = match prepared {
        Some(prep) => prep,
        None => {
            return None;
        },
    };
    let mode = cloud_mode(pipelines, motion.is_some());
    let mut g = CloudGraph {
        mode,
        reduced: [None, None],
        reduced_depth: None,
        full_color: None,
        full_depth: None,
        full_color_resource: None,
        full_depth_resource: None,
        temporal: false,
        reduced_groups: (cover(view.reduced_extent.0, 8), cover(view.reduced_extent.1, 8)),
        published_groups: (cover(view.published_extent.0, 8), cover(view.published_extent.1, 8)),
    };
    match mode {
        CloudMode::Parked => {
            let accesses = vec![
                (prep.base, RgUsage::SampledReadCompute),
                (prep.detail, RgUsage::SampledReadCompute),
                (prep.curl, RgUsage::SampledReadCompute),
                (prep.weather, RgUsage::SampledReadCompute),
                (prep.shadow, RgUsage::SampledReadCompute),
            ];
            proof {
                assert(accesses@ =~= spec_cloud_parked_accesses(prep));
            }
            add_compute_pass(graph, "cloud-resources-read", &accesses);
            Some(g)
        },
        CloudMode::Debug => {
            let accesses = vec![
                (color, RgUsage::StorageImageRwCompute),
                (depth, RgUsage::SampledReadCompute),
                (prep.base, RgUsage::SampledReadCompute),
                (prep.detail, RgUsage::SampledReadCompute),
                (prep.curl, RgUsage::SampledReadCompute),
                (prep.weather, RgUsage::SampledReadCompute),
            ];
            proof {
                assert(accesses@ =~= spec_cloud_debug_accesses(prep, color, depth));
            }
            add_compute_pass(graph, "cloud-density-debug", &accesses);
            Some(g)
        },
        CloudMode::Lit => {
            let motion_res = match motion {
                Some(mo) => mo,
                None => {
                    return None;
                },
            };
            let ghost m = graph.resources@.len() as int;
            let ghost n = graph.external_states@.len() as int;
            let ghost rs0 = graph.resources@;
            let ghost st0 = graph.external_states@;
            let (r0, s0) = import_with_state(graph, view.reduced[0]);
            let ghost rs1 = graph.resources@;
            let ghost st1 = graph.external_states@;
            let (r1, s1) = import_with_state(graph, view.reduced[1]);
            let ghost rs2 = graph.resources@;
            let ghost st2 = graph.external_states@;
            let (rd, sd) = import_with_state(graph, view.reduced_depth);
            let ghost rs3 = graph.resources@;
            let ghost st3 = graph.external_states@;
            let (fc, sc) = import_with_state(graph, view.full_color);
            let ghost rs4 = graph.resources@;
            let ghost st4 = graph.external_states@;
            let (fd, sfd) = import_with_state(graph, view.full_depth);
            proof {
                let images = spec_cloud_lit_images(view);
                assert forall|k: int| 0 <= k < 5 implies #[trigger] graph.external_states@[n + k] == images[k].state
                    && graph.resources@[m + k]@ == spec_state_import(images[k], (n + k) as usize) by {
                    if k == 0 {
                        assert(graph.resources@[m] == rs1[m]);
                        assert(graph.external_states@[n] == st1[n]);
                    } else if k == 1 {
                        assert(graph.resources@[m + 1] == rs2[m + 1]);
                        assert(graph.external_states@[n + 1] == st2[n + 1]);
                    } else if k == 2 {
                        assert(graph.resources@[m + 2] == rs3[m + 2]);
                        assert(graph.external_states@[n + 2] == st3[n + 2]);
                    } else if k == 3 {
                        assert(graph.resources@[m + 3] == rs4[m + 3]);
                        assert(graph.external_states@[n + 3] == st4[n + 3]);
                    }
                }
                assert forall|k: int| 0 <= k < m implies #[trigger] graph.resources@[k] == rs0[k] by {
                    assert(graph.resources@[k] == rs4[k]);
                    assert(rs4[k] == rs3[k]);
                    assert(rs3[k] == rs2[k]);
                    assert(rs2[k] == rs1[k]);
                }
                assert forall|k: int| 0 <= k < n implies #[trigger] graph.external_states@[k] == st0[k] by {
                    assert(graph.external_states@[k] == st4[k]);
                    assert(st4[k] == st3[k]);
                    assert(st3[k] == st2[k]);
                    assert(st2[k] == st1[k]);
                }
            }
            let (own, other) = if view.parity == 0 {
                (r0, r1)
            } else {
                (r1, r0)
            };
            let ghost table = graph.resources@;
            let raymarch = vec![
                (own, RgUsage::StorageImageRwCompute),
                (rd, RgUsage::StorageImageRwCompute),
                (depth, RgUsage::SampledReadCompute),
                (prep.base, RgUsage::SampledReadCompute),
                (prep.detail, RgUsage::SampledReadCompute),
                (prep.curl, RgUsage::SampledReadCompute),
                (prep.weather, RgUsage::SampledReadCompute),
                (prep.shadow, RgUsage::SampledReadCompute),
                (sky_sh, RgUsage::StorageReadCompute),
            ];
            proof {
                assert(raymarch@ =~= spec_cloud_raymarch_accesses(prep, m, view.parity as int, depth, sky_sh));
            }
            add_compute_pass(graph, "cloud-raymarch", &raymarch);
            let reconstruct = vec![
                (own, RgUsage::StorageImageRwCompute),
                (other, RgUsage::SampledReadCompute),
                (rd, RgUsage::SampledReadCompute),
                (motion_res, RgUsage::SampledReadCompute),
            ];
            proof {
                assert(reconstruct@ =~= spec_cloud_reconstruct_accesses(m, view.parity as int, motion_res));
            }
            add_compute_pass(graph, "cloud-reconstruct", &reconstruct);
            let upscale = vec![
                (fc, RgUsage::StorageImageRwCompute),
                (own, RgUsage::SampledReadCompute),
                (rd, RgUsage::SampledReadCompute),
                (depth, RgUsage::SampledReadCompute),
                (fd, RgUsage::StorageImageRwCompute),
            ];
            proof {
                assert(upscale@ =~= spec_cloud_upscale_accesses(m, view.parity as int, depth));
            }
            add_compute_pass(graph, "cloud-upscale", &upscale);
            let history = vec![
                (r0, RgUsage::SampledReadCompute),
                (r1, RgUsage::SampledReadCompute),
                (rd, RgUsage::SampledReadCompute),
                (fc, RgUsage::SampledReadCompute),
                (fd, RgUsage::SampledReadCompute),
            ];
            proof {
                assert(history@ =~= spec_cloud_history_accesses(m));
            }
            add_compute_pass(graph, "cloud-history-read", &history);
            proof {
                assert(graph.resources@ == table);
            }
            g.reduced = [Some(s0), Some(s1)];
            g.reduced_depth = Some(sd);
            g.full_color = Some(sc);
            g.full_depth = Some(sfd);
            g.full_color_resource = Some(fc);
            g.full_depth_resource = Some(fd);
            g.temporal = true;
            Some(g)
        },
    }
}


/// The frame's shared cloud images, each with the state its cross-frame slot carries.
#[derive(Clone, Copy, Debug, PartialEq, Eq)]
pub struct CloudNoiseImages {
    /// The base-shape noise volume.
    pub base: CloudImage,
    /// The detail noise volume.
    pub detail: CloudImage,
    /// The curl-noise texture.
    pub curl: CloudImage,
    /// The weather map.
    pub weather: CloudImage,
    /// The cloud-shadow cascades.
    pub shadow: CloudImage,
}

/// The shared cloud images in the order they are imported.
pub open spec fn spec_cloud_noise_images(images: CloudNoiseImages) -> Seq<CloudImage> {
    seq![images.base, images.detail, images.curl, images.weather, images.shadow]
}

/// Imports each of `images` in order, each through a new slot holding its carried state.
fn import_all_with_state(graph: &mut RenderGraph, images: &Vec<CloudImage>) -> (r: (Vec<RgResource>, Vec<usize>))
    requires
        old(graph).resources@.len() + images@.len() < u32::MAX,
        old(graph).external_states@.len() + images@.len() < usize::MAX,
    ensures
        ({
            let m = old(graph).resources@.len() as int;
            let n = old(graph).external_states@.len() as int;
            &&& r.0@.len() == images@.len() && r.1@.len() == images@.len()
            &&& final(graph).resources@.len() == m + images@.len()
            &&& final(graph).external_states@.len() == n + images@.len()
            &&& forall|k: int| 0 <= k < m ==> #[trigger] final(graph).resources@[k] == old(graph).resources@[k]
            &&& forall|k: int| 0 <= k < n ==> #[trigger] final(graph).external_states@[k] == old(graph).external_states@[k]
            &&& forall|k: int| #![trigger images@[k]] 0 <= k < images@.len() ==> {
                &&& r.0@[k].index == m + k
                &&& r.1@[k] == n + k
                &&& final(graph).external_states@[n + k] == images@[k].state
                &&& final(graph).resources@[m + k]@ == spec_state_import(images@[k], (n + k) as usize)
            }
        }),
        final(graph).passes@ == old(graph).passes@,
        final(graph).external_buffer_states@ == old(graph).external_buffer_states@,
{
    let ghost m = graph.resources@.len() as int;
    let ghost n = graph.external_states@.len() as int;
    let mut resources: Vec<RgResource> = Vec::new();
    let mut slots: Vec<usize> = Vec::new();
    let mut i: usize = 0;
    while i < images.len()
        invariant
            i <= images@.len(),
            m == old(graph).resources@.len(),
            n == old(graph).external_states@.len(),
            m + images@.len() < u32::MAX,
            n + images@.len() < usize::MAX,
            resources@.len() == i && slots@.len() == i,
            graph.resources@.len() == m + i,
            graph.external_states@.len() == n + i,
            forall|k: int| 0 <= k < m ==> #[trigger] graph.resources@[k] == old(graph).resources@[k],
            forall|k: int| 0 <= k < n ==> #[trigger] graph.external_states@[k] == old(graph).external_states@[k],
            forall|k: int| #![trigger images@[k]] 0 <= k < i ==> {
                &&& resources@[k].index == m + k
                &&& slots@[k] == n + k
                &&& graph.external_states@[n + k] == images@[k].state
                &&& graph.resources@[m + k]@ == spec_state_import(images@[k], (n + k) as usize)
            },
            graph.passes@ == old(graph).passes@,
            graph.external_buffer_states@ == old(graph).external_buffer_states@,
        decreases images.len() - i,
    {
        let ghost rs0 = graph.resources@;
        let ghost st0 = graph.external_states@;
        let ghost r0 = resources@;
        let ghost s0 = slots@;
        let (res, slot) = import_with_state(graph, images[i]);
        resources.push(res);
        slots.push(slot);
        proof {
            assert forall|k: int| #![trigger images@[k]] 0 <= k < i + 1 implies {
                &&& resources@[k].index == m + k
                &&& slots@[k] == n + k
                &&& graph.external_states@[n + k] == images@[k].state
                &&& graph.resources@[m + k]@ == spec_state_import(images@[k], (n + k) as usize)
            } by {
                if k < i {
                    assert(resources@[k] == r0[k]);
                    assert(slots@[k] == s0[k]);
                    assert(graph.resources@[m + k] == rs0[m + k]);
                    assert(graph.external_states@[n + k] == st0[n + k]);
                }
            }
            assert forall|k: int| 0 <= k < m implies #[trigger] graph.resources@[k] == old(graph).resources@[k] by {
                assert(graph.resources@[k] == rs0[k]);
            }
            assert forall|k: int| 0 <= k < n implies #[trigger] graph.external_states@[k] == old(graph).external_states@[k] by {
                assert(graph.external_states@[k] == st0[k]);
            }
        }
        i = i + 1;
    }
    (resources, slots)
}

/// The shadow bake's accesses: it writes the shadow cascades from the noise volumes and the
/// weather map.
pub open spec fn spec_cloud_shadow_accesses(p: CloudPrepared) -> Seq<(RgResource, RgUsage)> {
    seq![
        (p.shadow, RgUsage::StorageImageRwCompute),
        (p.base, RgUsage::SampledReadCompute),
        (p.detail, RgUsage::SampledReadCompute),
        (p.curl, RgUsage::SampledReadCompute),
        (p.weather, RgUsage::SampledReadCompute),
    ]
}

/// Prepares the frame's clouds when they are on: imports the base and detail noise volumes, the
/// curl noise, the weather map and the shadow cascades (in that order), each through a new slot
/// holding its carried state; then adds `cloud-weather` when the weather map is re-baked this
/// frame, and `cloud-shadow` when clouds cast shadows. With clouds off nothing is declared.
pub fn add_cloud_prepare_passes(
    graph: &mut RenderGraph,
    enabled: bool,
    images: CloudNoiseImages,
    weather: bool,
    shadow: bool,
    weather_dim: u32,
    shadow_dim: u32,
) -> (r: Option<CloudPrepared>)
    requires
        old(graph).resources@.len() + 5 < u32::MAX,
        old(graph).external_states@.len() + 5 < usize::MAX,
    ensures
        r is Some <==> enabled,
        final(graph).external_buffer_states@ == old(graph).external_buffer_states@,
        r is None ==> final(graph).resources@ == old(graph).resources@ && final(graph).passes@ == old(graph).passes@
            && final(graph).external_states@ == old(graph).external_states@,
        r matches Some(c) ==> ({
            let m = old(graph).resources@.len() as int;
            let n = old(graph).external_states@.len() as int;
            let p = old(graph).passes@.len() as int;
            let list = spec_cloud_noise_images(images);
            let after_weather = if weather { p + 1 } else { p };
            &&& final(graph).resources@.len() == m + 5
            &&& final(graph).external_states@.len() == n + 5
            &&& forall|k: int| 0 <= k < m ==> #[trigger] final(graph).resources@[k] == old(graph).resources@[k]
            &&& forall|k: int| 0 <= k < n ==> #[trigger] final(graph).external_states@[k] == old(graph).external_states@[k]
            &&& forall|k: int| 0 <= k < 5 ==> #[trigger] final(graph).external_states@[n + k] == list[k].state
                && final(graph).resources@[m + k]@ == spec_state_import(list[k], (n + k) as usize)
            &&& c.base == spec_lit_res(m, 0) && c.detail == spec_lit_res(m, 1) && c.curl == spec_lit_res(m, 2)
            &&& c.weather == spec_lit_res(m, 3) && c.shadow == spec_lit_res(m, 4)
            &&& c.slots == (n as usize, (n + 1) as usize, (n + 2) as usize, (n + 3) as usize, (n + 4) as usize)
            &&& c.weather_groups == spec_cover(weather_dim, 8)
            &&& c.shadow_groups == spec_cover(shadow_dim, 8)
            &&& final(graph).passes@.len() == after_weather + if shadow { 1int } else { 0int }
            &&& forall|k: int| 0 <= k < p ==> #[trigger] final(graph).passes@[k] == old(graph).passes@[k]
            &&& weather ==> spec_compute_pass(final(graph).passes@[p], "cloud-weather"@,
                seq![(c.weather, RgUsage::StorageImageRwCompute)])
            &&& shadow ==> spec_compute_pass(final(graph).passes@[after_weather], "cloud-shadow"@,
                spec_cloud_shadow_accesses(c))
        }),
{
    if !enabled {
        return None;
    }
    let list = vec![images.base, images.detail, images.curl, images.weather, images.shadow];
    proof {
        assert(list@ =~= spec_cloud_noise_images(images));
    }
    let ghost m = graph.resources@.len() as int;
    let (res, slots) = import_all_with_state(graph, &list);
    proof {
        let l = spec_cloud_noise_images(images);
        assert(l[0] == list@[0] && l[1] == list@[1] && l[2] == list@[2] && l[3] == list@[3] && l[4] == list@[4]);
    }
    let c = CloudPrepared {
        base: res[0],
        detail: res[1],
        curl: res[2],
        weather: res[3],
        shadow: res[4],
        slots: (slots[0], slots[1], slots[2], slots[3], slots[4]),
        weather_groups: cover(weather_dim, 8),
        shadow_groups: cover(shadow_dim, 8),
    };
    proof {
        assert(c.base == spec_lit_res(m, 0));
        assert(c.detail == spec_lit_res(m, 1));
        assert(c.curl == spec_lit_res(m, 2));
        assert(c.weather == spec_lit_res(m, 3));
        assert(c.shadow == spec_lit_res(m, 4));
    }
    let ghost table = graph.resources@;
    let ghost p = graph.passes@.len() as int;
    if weather {
        let bake = vec![(c.weather, RgUsage::StorageImageRwCompute)];
        proof {
            assert(bake@ =~= seq![(c.weather, RgUsage::StorageImageRwCompute)]);
        }
        add_compute_pass(graph, "cloud-weather", &bake);
    }
    let ghost mid = graph.passes@;
    if shadow {
        let bake = vec![
            (c.shadow, RgUsage::StorageImageRwCompute),
            (c.base, RgUsage::SampledReadCompute),
            (c.detail, RgUsage::SampledReadCompute),
            (c.curl, RgUsage::SampledReadCompute),
            (c.weather, RgUsage::SampledReadCompute),
        ];
        proof {
            assert(bake@ =~= spec_cloud_shadow_accesses(c));
        }
        add_compute_pass(graph, "cloud-shadow", &bake);
        proof {
            if weather {
                assert(graph.passes@[p] == mid[p]);
            }
        }
    }
    proof {
        assert(graph.resources@ == table);
    }
    Some(c)
}

} // verus!

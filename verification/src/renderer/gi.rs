//! The global-illumination render-graph passes: the global distance field's build (instance cull,
//! cascade composite), ReSTIR direct lighting (initial candidates, reservoir reuse, visibility
//! resolve) and the DDGI probe chain (trace, irradiance and distance blends, border copy). Each builder declares the resources and passes of its chain; what the
//! passes bind and push is recorded beside the graph.
use vstd::prelude::*;
use crate::render_graph::{RgExternalBufferState, RgExternalState, RgQueuePreference, RgResource, RgResourceView, RgUsage};
use crate::render_graph::graph::{RenderGraph, spec_imported_image, spec_no_buffer_entry, spec_table};
use crate::vk_values::ASPECT_COLOR;
use super::graph_util::{add_compute_pass, add_compute_pass_on, cover, spec_compute_pass, spec_compute_pass_on, spec_cover};

verus! {

/// An image to import: its handle, its view and the layout it is in.
#[derive(Clone, Copy, Debug, PartialEq, Eq, Structural)]
pub struct GiImage {
    /// The raw image handle.
    pub image: u64,
    /// The raw image-view handle.
    pub view: u64,
    /// The layout the image is in at import.
    pub layout: i32,
}

/// What ReSTIR needs to have happened before it can run this frame.
#[derive(Clone, Copy, Debug, PartialEq, Eq, Structural)]
pub struct RestirGate {
    /// The three ReSTIR pipelines resolved.
    pub pipelines_ready: bool,
    /// The top-level acceleration structure the resolve traces was built this frame.
    pub tlas_ready: bool,
    /// The G-buffer prepass ran for the active view.
    pub gbuffer_ran: bool,
    /// The light-cluster cull armed the candidate lists.
    pub cull_ran: bool,
    /// The view's reservoirs are built at this extent.
    pub reservoirs_ready: bool,
}

/// Whether every ReSTIR precondition holds.
pub open spec fn spec_restir_gate_open(gate: RestirGate) -> bool {
    gate.pipelines_ready && gate.tlas_ready && gate.gbuffer_ran && gate.cull_ran && gate.reservoirs_ready
}

/// What the ReSTIR chain declared.
#[derive(Clone, Copy, Debug, PartialEq, Eq)]
pub struct RestirGraph {
    /// The combined-reservoir buffer the three passes serialize through.
    pub sentinel: RgResource,
    /// The resolved direct-radiance image.
    pub radiance: RgResource,
    /// The radiance image's cross-frame slot.
    pub radiance_slot: usize,
    /// The workgroups of each of the three dispatches: 8x8 pixels each.
    pub groups: (u32, u32),
}

/// The reuse pass's accesses: it reads the reservoirs, and samples the motion target when there
/// is one (its temporal term reprojects through it).
pub open spec fn spec_restir_reuse_accesses(sentinel: RgResource, motion: Option<RgResource>) -> Seq<(RgResource, RgUsage)> {
    match motion {
        Some(m) => seq![(sentinel, RgUsage::StorageReadCompute), (m, RgUsage::SampledReadCompute)],
        None => seq![(sentinel, RgUsage::StorageReadCompute)],
    }
}

/// Declares the ReSTIR chain over a view of `extent` pixels when it runs this frame: when the
/// gate is open and the view has both its radiance image and its combined-reservoir buffer,
/// imports the buffer, imports the radiance image through a new cross-frame slot, and adds the
/// `restir-initial`, `restir-reuse` and `restir-resolve` passes. Otherwise the graph is left
/// untouched and direct lighting stays on the clustered path.
pub fn add_restir_passes(
    graph: &mut RenderGraph,
    gate: RestirGate,
    radiance: Option<GiImage>,
    combined: Option<u64>,
    motion: Option<RgResource>,
    extent: (u32, u32),
) -> (r: Option<RestirGraph>)
    requires
        old(graph).resources@.len() + 2 < u32::MAX,
        old(graph).external_states@.len() < usize::MAX,
    ensures
        r is Some <==> spec_restir_gate_open(gate) && radiance is Some && combined is Some,
        r is None ==> final(graph).resources@ == old(graph).resources@ && final(graph).passes@ == old(graph).passes@
            && final(graph).external_states@ == old(graph).external_states@,
        final(graph).external_buffer_states@ == old(graph).external_buffer_states@,
        r matches Some(g) ==> ({
            let n = old(graph).external_states@.len();
            let p = old(graph).passes@.len() as int;
            let rad = radiance->0;
            let resources = final(graph).resources@;
            &&& g.radiance_slot == n
            &&& final(graph).external_states@ == old(graph).external_states@.push(RgExternalState::spec_new(rad.layout))
            &&& g.sentinel.index < g.radiance.index
            &&& !resources[g.sentinel.index as int].is_image
            &&& resources[g.sentinel.index as int].buffer == combined->0
            &&& g.radiance.index + 1 == resources.len()
            &&& resources.last()@ == spec_imported_image(rad.image, rad.view, ASPECT_COLOR, rad.layout, Some(n as usize),
                final(graph).external_states@)
            &&& forall|k: int| 0 <= k < old(graph).resources@.len() && k != g.sentinel.index ==> #[trigger] resources[k]
                == old(graph).resources@[k]
            &&& final(graph).passes@.len() == p + 3
            &&& forall|k: int| 0 <= k < p ==> #[trigger] final(graph).passes@[k] == old(graph).passes@[k]
            &&& spec_compute_pass(final(graph).passes@[p], "restir-initial"@,
                seq![(g.sentinel, RgUsage::StorageWriteCompute)])
            &&& spec_compute_pass(final(graph).passes@[p + 1], "restir-reuse"@,
                spec_restir_reuse_accesses(g.sentinel, motion))
            &&& spec_compute_pass(final(graph).passes@[p + 2], "restir-resolve"@,
                seq![(g.sentinel, RgUsage::StorageReadCompute), (g.radiance, RgUsage::StorageImageRwCompute)])
            &&& g.groups == (spec_cover(extent.0, 8), spec_cover(extent.1, 8))
        }),
{
    if !(gate.pipelines_ready && gate.tlas_ready && gate.gbuffer_ran && gate.cull_ran && gate.reservoirs_ready) {
        return None;
    }
    let rad = match radiance {
        Some(rad) => rad,
        None => {
            return None;
        },
    };
    let buffer = match combined {
        Some(b) => b,
        None => {
            return None;
        },
    };
    let ghost before = graph.passes@;
    let sentinel = graph.import_buffer(buffer, None);
    let slot = graph.alloc_external_state(RgExternalState::new(rad.layout));
    let radiance_res = graph.import_image(rad.image, rad.view, ASPECT_COLOR, rad.layout, Some(slot));
    let g = RestirGraph {
        sentinel,
        radiance: radiance_res,
        radiance_slot: slot,
        groups: (cover(extent.0, 8), cover(extent.1, 8)),
    };
    let ghost table = graph.resources@;
    let initial = vec![(sentinel, RgUsage::StorageWriteCompute)];
    add_compute_pass(graph, "restir-initial", &initial);
    let mut reuse = vec![(sentinel, RgUsage::StorageReadCompute)];
    if let Some(m) = motion {
        reuse.push((m, RgUsage::SampledReadCompute));
    }
    proof {
        assert(reuse@ =~= spec_restir_reuse_accesses(sentinel, motion));
        assert(initial@ =~= seq![(sentinel, RgUsage::StorageWriteCompute)]);
    }
    add_compute_pass(graph, "restir-reuse", &reuse);
    let resolve = vec![(sentinel, RgUsage::StorageReadCompute), (radiance_res, RgUsage::StorageImageRwCompute)];
    proof {
        assert(resolve@ =~= seq![(sentinel, RgUsage::StorageReadCompute), (radiance_res, RgUsage::StorageImageRwCompute)]);
    }
    add_compute_pass(graph, "restir-resolve", &resolve);
    proof {
        assert(graph.resources@ == table);
    }
    Some(g)
}


/// The table entry of `img` imported through a fresh cross-frame slot `slot`: the slot holds the
/// first-use state of the image's layout, and the entry starts from it.
pub open spec fn spec_slot_import(img: GiImage, slot: usize) -> RgResourceView {
    spec_imported_image(
        img.image,
        img.view,
        ASPECT_COLOR,
        img.layout,
        Some(slot),
        Seq::new((slot + 1) as nat, |i: int| RgExternalState::spec_new(img.layout)),
    )
}

/// Allocates a cross-frame slot holding the first-use state of `img`'s layout and imports the
/// image through it.
fn import_through_slot(graph: &mut RenderGraph, img: GiImage) -> (r: (RgResource, usize))
    requires
        old(graph).resources@.len() < u32::MAX,
        old(graph).external_states@.len() < usize::MAX,
    ensures
        r.1 == old(graph).external_states@.len(),
        final(graph).external_states@ == old(graph).external_states@.push(RgExternalState::spec_new(img.layout)),
        r.0.index == old(graph).resources@.len(),
        final(graph).resources@.len() == old(graph).resources@.len() + 1,
        forall|k: int| 0 <= k < old(graph).resources@.len() ==> #[trigger] final(graph).resources@[k] == old(graph).resources@[k],
        final(graph).resources@[r.0.index as int]@ == spec_slot_import(img, r.1),
        final(graph).passes@ == old(graph).passes@,
        final(graph).external_buffer_states@ == old(graph).external_buffer_states@,
{
    let slot = graph.alloc_external_state(RgExternalState::new(img.layout));
    let res = graph.import_image(img.image, img.view, ASPECT_COLOR, img.layout, Some(slot));
    proof {
        let fresh = Seq::new((slot + 1) as nat, |i: int| RgExternalState::spec_new(img.layout));
        assert(fresh[slot as int] == graph.external_states@[slot as int]);
    }
    (res, slot)
}

/// A dirty region of a distance-field cascade that the composite rebuilds this frame.
#[derive(Clone, Copy, Debug, PartialEq, Eq)]
pub struct GdfRegion {
    /// The cascade the region lies in.
    pub cascade: u32,
    /// The region's size in voxels.
    pub size: (u32, u32, u32),
}

/// One composite dispatch: the cascade it writes and its workgroups of 4x4x4 voxels.
#[derive(Clone, Copy, Debug, PartialEq, Eq)]
pub struct GdfDispatch {
    /// The cascade the dispatch writes.
    pub cascade: u32,
    /// The workgroups covering the region.
    pub groups: (u32, u32, u32),
}

/// The dispatch that rebuilds `region`.
pub open spec fn spec_gdf_dispatch(region: GdfRegion) -> GdfDispatch {
    GdfDispatch {
        cascade: region.cascade,
        groups: (spec_cover(region.size.0, 4), spec_cover(region.size.1, 4), spec_cover(region.size.2, 4)),
    }
}

/// What the distance-field build declared.
#[derive(Clone, Debug)]
pub struct GdfGraph {
    /// This frame slot's cull-list buffer.
    pub cull: RgResource,
    /// The cull list's cross-frame byte-range slot.
    pub cull_slot: usize,
    /// The per-mesh distance-field instance buffer.
    pub instances: RgResource,
    /// The instance meta buffer.
    pub meta: RgResource,
    /// The cascade volumes, nearest first.
    pub cascades: Vec<RgResource>,
    /// The cascade volumes' cross-frame slots.
    pub cascade_slots: Vec<usize>,
    /// The per-cascade occupancy volumes.
    pub occupancy: Vec<RgResource>,
    /// The occupancy volumes' cross-frame slots.
    pub occupancy_slots: Vec<usize>,
    /// The lite albedo cache.
    pub albedo: RgResource,
    /// The albedo cache's cross-frame slot.
    pub albedo_slot: usize,
    /// The cull's workgroups: one thread per instance, 64 per group.
    pub cull_groups: u32,
    /// The composite's dispatches, one per dirty region.
    pub dispatches: Vec<GdfDispatch>,
}

/// The accesses `usage` of each of `resources`, in order.
pub open spec fn spec_each(resources: Seq<RgResource>, usage: RgUsage) -> Seq<(RgResource, RgUsage)> {
    resources.map_values(|r: RgResource| (r, usage))
}

/// The cull's accesses: it reads the instances and their meta and writes the cull list.
pub open spec fn spec_gdf_cull_accesses(g: GdfGraph) -> Seq<(RgResource, RgUsage)> {
    seq![
        (g.instances, RgUsage::StorageReadCompute),
        (g.meta, RgUsage::StorageReadCompute),
        (g.cull, RgUsage::StorageWriteCompute),
    ]
}

/// The composite's accesses: it reads the cull list and the instances, and reads and writes
/// every cascade, every occupancy volume and the albedo cache.
pub open spec fn spec_gdf_composite_accesses(g: GdfGraph) -> Seq<(RgResource, RgUsage)> {
    seq![(g.cull, RgUsage::StorageReadCompute), (g.instances, RgUsage::StorageReadCompute)] + spec_each(
        g.cascades@,
        RgUsage::StorageImageRwCompute,
    ) + spec_each(g.occupancy@, RgUsage::StorageImageRwCompute) + seq![(g.albedo, RgUsage::StorageImageRwCompute)]
}

/// Appends the accesses `usage` of each of `resources` to `list`.
fn push_each(list: &mut Vec<(RgResource, RgUsage)>, resources: &Vec<RgResource>, usage: RgUsage)
    ensures
        final(list)@ == old(list)@ + spec_each(resources@, usage),
{
    let mut i: usize = 0;
    while i < resources.len()
        invariant
            i <= resources@.len(),
            list@ == old(list)@ + spec_each(resources@.subrange(0, i as int), usage),
        decreases resources.len() - i,
    {
        proof {
            assert(spec_each(resources@.subrange(0, i + 1), usage) =~= spec_each(resources@.subrange(0, i as int), usage).push(
                (resources@[i as int], usage),
            ));
        }
        list.push((resources[i], usage));
        i = i + 1;
    }
    proof {
        assert(resources@.subrange(0, i as int) =~= resources@);
    }
}

/// Cascade `j`'s volume and occupancy volume were imported at `b + 2j` and `b + 2j + 1` of
/// `resources` through fresh slots `n + 2j` and `n + 2j + 1` of `states`.
pub open spec fn spec_cascade_imported(
    resources: Seq<RgResourceView>,
    states: Seq<RgExternalState>,
    pair: (GiImage, GiImage),
    volume: RgResource,
    volume_slot: usize,
    occupancy: RgResource,
    occupancy_slot: usize,
    b: int,
    n: int,
    j: int,
) -> bool {
    &&& volume.index == b + 2 * j
    &&& volume_slot == n + 2 * j
    &&& states[n + 2 * j] == RgExternalState::spec_new(pair.0.layout)
    &&& resources[b + 2 * j] == spec_slot_import(pair.0, (n + 2 * j) as usize)
    &&& occupancy.index == b + 2 * j + 1
    &&& occupancy_slot == n + 2 * j + 1
    &&& states[n + 2 * j + 1] == RgExternalState::spec_new(pair.1.layout)
    &&& resources[b + 2 * j + 1] == spec_slot_import(pair.1, (n + 2 * j + 1) as usize)
}

/// Declares the global distance field's build when its pipelines resolved: imports this frame
/// slot's cull list through a new byte-range slot seeded with `cull_state`, imports the instance
/// and meta buffers, imports each cascade volume and its occupancy volume (in that order, per
/// cascade) and then the albedo cache, each through a new cross-frame slot, and adds the
/// `gdf-cull` and `gdf-composite` passes on the async-compute queue, so the build overlaps the
/// raster work in front of its consumers. Otherwise the graph is left untouched.
pub fn add_gdf_passes(
    graph: &mut RenderGraph,
    pipelines_ready: bool,
    cull_buffer: u64,
    cull_state: RgExternalBufferState,
    sdf_instances: u64,
    sdf_meta: u64,
    cascades: &[(GiImage, GiImage)],
    albedo: GiImage,
    regions: &[GdfRegion],
    max_instances: u32,
) -> (r: Option<GdfGraph>)
    requires
        old(graph).resources@.len() + 3 + 2 * cascades@.len() + 1 < u32::MAX,
        old(graph).external_states@.len() + 2 * cascades@.len() + 1 < usize::MAX,
        old(graph).external_buffer_states@.len() < usize::MAX,
    ensures
        r is Some <==> pipelines_ready,
        r is None ==> final(graph).resources@ == old(graph).resources@ && final(graph).passes@ == old(graph).passes@
            && final(graph).external_states@ == old(graph).external_states@
            && final(graph).external_buffer_states@ == old(graph).external_buffer_states@,
        r matches Some(g) ==> ({
            let n = old(graph).external_states@.len() as int;
            let c = cascades@.len() as int;
            let p = old(graph).passes@.len() as int;
            let resources = final(graph).resources@;
            let states = final(graph).external_states@;
            let b = resources.len() - (2 * c + 1);
            &&& g.cull_slot == old(graph).external_buffer_states@.len()
            &&& final(graph).external_buffer_states@ == old(graph).external_buffer_states@.push(cull_state)
            &&& !resources[g.cull.index as int].is_image && resources[g.cull.index as int].buffer == cull_buffer
            &&& !resources[g.instances.index as int].is_image && resources[g.instances.index as int].buffer == sdf_instances
            &&& !resources[g.meta.index as int].is_image && resources[g.meta.index as int].buffer == sdf_meta
            &&& g.cull.index < b && g.instances.index < b && g.meta.index < b
            &&& old(graph).resources@.len() <= b <= old(graph).resources@.len() + 3
            &&& forall|k: int|
                0 <= k < old(graph).resources@.len() && k != g.cull.index && k != g.instances.index && k != g.meta.index
                    ==> #[trigger] resources[k] == old(graph).resources@[k]
            &&& states.len() == n + 2 * c + 1
            &&& forall|k: int| 0 <= k < n ==> #[trigger] states[k] == old(graph).external_states@[k]
            &&& g.cascades@.len() == c && g.cascade_slots@.len() == c
            &&& g.occupancy@.len() == c && g.occupancy_slots@.len() == c
            &&& forall|j: int| #![trigger g.cascades@[j]] 0 <= j < c ==> spec_cascade_imported(spec_table(resources), states,
                cascades@[j], g.cascades@[j], g.cascade_slots@[j], g.occupancy@[j], g.occupancy_slots@[j], b, n, j)
            &&& g.albedo.index == b + 2 * c && g.albedo_slot == n + 2 * c
            &&& states[n + 2 * c] == RgExternalState::spec_new(albedo.layout)
            &&& resources[b + 2 * c]@ == spec_slot_import(albedo, (n + 2 * c) as usize)
            &&& final(graph).passes@.len() == p + 2
            &&& forall|k: int| 0 <= k < p ==> #[trigger] final(graph).passes@[k] == old(graph).passes@[k]
            &&& spec_compute_pass_on(final(graph).passes@[p], "gdf-cull"@, RgQueuePreference::AsyncCompute,
                spec_gdf_cull_accesses(g))
            &&& spec_compute_pass_on(final(graph).passes@[p + 1], "gdf-composite"@, RgQueuePreference::AsyncCompute,
                spec_gdf_composite_accesses(g))
            &&& g.cull_groups == spec_cover(max_instances, 64)
            &&& g.dispatches@.len() == regions@.len()
            &&& forall|j: int| 0 <= j < regions@.len() ==> #[trigger] g.dispatches@[j] == spec_gdf_dispatch(regions@[j])
        }),
{
    if !pipelines_ready {
        return None;
    }
    let ghost m = graph.resources@.len();
    let cull_slot = graph.alloc_external_buffer_state(cull_state);
    let cull = graph.import_buffer(cull_buffer, Some(cull_slot));
    let ghost r1 = graph.resources@;
    let instances = graph.import_buffer(sdf_instances, None);
    let ghost r2 = graph.resources@;
    proof {
        if !spec_no_buffer_entry(spec_table(r1), sdf_instances) {
            assert(spec_table(r1)[instances.index as int] == r1[instances.index as int]@);
        }
    }
    let meta = graph.import_buffer(sdf_meta, None);
    proof {
        if !spec_no_buffer_entry(spec_table(r2), sdf_meta) {
            assert(spec_table(r2)[meta.index as int] == r2[meta.index as int]@);
        }
    }
    let ghost b = graph.resources@.len();
    let ghost after_buffers = graph.resources@;
    let ghost n = graph.external_states@.len();
    let ghost before_passes = graph.passes@;
    let ghost buffer_states = graph.external_buffer_states@;
    let mut cascade_res: Vec<RgResource> = Vec::new();
    let mut cascade_slots: Vec<usize> = Vec::new();
    let mut occupancy_res: Vec<RgResource> = Vec::new();
    let mut occupancy_slots: Vec<usize> = Vec::new();
    let mut i: usize = 0;
    while i < cascades.len()
        invariant
            i <= cascades@.len(),
            m <= b <= m + 3,
            b + 2 * cascades@.len() + 1 < u32::MAX,
            n == old(graph).external_states@.len(),
            n + 2 * cascades@.len() + 1 < usize::MAX,
            graph.resources@.len() == b + 2 * i,
            graph.external_states@.len() == n + 2 * i,
            forall|k: int| 0 <= k < b ==> #[trigger] graph.resources@[k] == after_buffers[k],
            forall|k: int| 0 <= k < n ==> #[trigger] graph.external_states@[k] == old(graph).external_states@[k],
            cascade_res@.len() == i && cascade_slots@.len() == i,
            occupancy_res@.len() == i && occupancy_slots@.len() == i,
            forall|j: int| #![trigger cascade_res@[j]] 0 <= j < i ==> spec_cascade_imported(spec_table(graph.resources@),
                graph.external_states@, cascades@[j], cascade_res@[j], cascade_slots@[j], occupancy_res@[j],
                occupancy_slots@[j], b as int, n as int, j),
            graph.passes@ == before_passes,
            graph.external_buffer_states@ == buffer_states,
        decreases cascades.len() - i,
    {
        let (volume, occupancy) = cascades[i];
        let ghost rs0 = graph.resources@;
        let ghost st0 = graph.external_states@;
        let ghost cr0 = cascade_res@;
        let ghost cs0 = cascade_slots@;
        let ghost or0 = occupancy_res@;
        let ghost os0 = occupancy_slots@;
        let (res, slot) = import_through_slot(graph, volume);
        let ghost rs1 = graph.resources@;
        let ghost st1 = graph.external_states@;
        let (occ_res, occ_slot) = import_through_slot(graph, occupancy);
        cascade_res.push(res);
        cascade_slots.push(slot);
        occupancy_res.push(occ_res);
        occupancy_slots.push(occ_slot);
        proof {
            assert forall|j: int| #![trigger cascade_res@[j]] 0 <= j < i + 1 implies spec_cascade_imported(
                spec_table(graph.resources@),
                graph.external_states@,
                cascades@[j],
                cascade_res@[j],
                cascade_slots@[j],
                occupancy_res@[j],
                occupancy_slots@[j],
                b as int,
                n as int,
                j,
            ) by {
                if j < i {
                    assert(cascade_res@[j] == cr0[j]);
                    assert(spec_cascade_imported(spec_table(rs0), st0, cascades@[j], cr0[j], cs0[j], or0[j], os0[j], b as int,
                        n as int, j));
                    assert(cascade_slots@[j] == cs0[j]);
                    assert(occupancy_res@[j] == or0[j]);
                    assert(occupancy_slots@[j] == os0[j]);
                    assert(graph.resources@[b + 2 * j] == rs0[b + 2 * j]);
                    assert(graph.resources@[b + 2 * j + 1] == rs0[b + 2 * j + 1]);
                    assert(graph.external_states@[n + 2 * j] == st0[n + 2 * j]);
                    assert(graph.external_states@[n + 2 * j + 1] == st0[n + 2 * j + 1]);
                } else {
                    assert(graph.resources@[b + 2 * i] == rs1[b + 2 * i]);
                    assert(graph.external_states@[n + 2 * i] == st1[n + 2 * i]);
                }
            }
            assert forall|k: int| 0 <= k < b implies #[trigger] graph.resources@[k] == after_buffers[k] by {
                assert(graph.resources@[k] == rs1[k]);
                assert(rs1[k] == rs0[k]);
            }
            assert forall|k: int| 0 <= k < n implies #[trigger] graph.external_states@[k] == old(graph).external_states@[k] by {
                assert(graph.external_states@[k] == st1[k]);
                assert(st1[k] == st0[k]);
            }
        }
        i = i + 1;
    }
    let (albedo_res, albedo_slot) = import_through_slot(graph, albedo);
    let mut dispatches: Vec<GdfDispatch> = Vec::new();
    let mut j: usize = 0;
    while j < regions.len()
        invariant
            j <= regions@.len(),
            dispatches@.len() == j,
            forall|k: int| 0 <= k < j ==> #[trigger] dispatches@[k] == spec_gdf_dispatch(regions@[k]),
        decreases regions.len() - j,
    {
        let region = regions[j];
        dispatches.push(
            GdfDispatch {
                cascade: region.cascade,
                groups: (cover(region.size.0, 4), cover(region.size.1, 4), cover(region.size.2, 4)),
            },
        );
        j = j + 1;
    }
    let g = GdfGraph {
        cull,
        cull_slot,
        instances,
        meta,
        cascades: cascade_res,
        cascade_slots,
        occupancy: occupancy_res,
        occupancy_slots,
        albedo: albedo_res,
        albedo_slot,
        cull_groups: cover(max_instances, 64),
        dispatches,
    };
    let ghost table = graph.resources@;
    let cull_accesses = vec![
        (instances, RgUsage::StorageReadCompute),
        (meta, RgUsage::StorageReadCompute),
        (cull, RgUsage::StorageWriteCompute),
    ];
    proof {
        assert(cull_accesses@ =~= spec_gdf_cull_accesses(g));
    }
    add_compute_pass_on(graph, "gdf-cull", RgQueuePreference::AsyncCompute, &cull_accesses);
    let mut composite = vec![(cull, RgUsage::StorageReadCompute), (instances, RgUsage::StorageReadCompute)];
    push_each(&mut composite, &g.cascades, RgUsage::StorageImageRwCompute);
    push_each(&mut composite, &g.occupancy, RgUsage::StorageImageRwCompute);
    composite.push((albedo_res, RgUsage::StorageImageRwCompute));
    proof {
        assert(composite@ =~= spec_gdf_composite_accesses(g));
    }
    add_compute_pass_on(graph, "gdf-composite", RgQueuePreference::AsyncCompute, &composite);
    proof {
        assert(graph.resources@ == table);
    }
    Some(g)
}


/// The probe volume's sizes that set the DDGI dispatches.
#[derive(Clone, Copy, Debug, PartialEq, Eq)]
pub struct DdgiLayout {
    /// Rays traced per probe.
    pub rays_per_probe: u32,
    /// Probes traced per frame (the round-robin budget).
    pub probe_budget: u32,
    /// The irradiance atlas's size in texels.
    pub irradiance: (u32, u32),
    /// The distance atlas's size in texels.
    pub distance: (u32, u32),
}

/// What the DDGI chain declared.
#[derive(Clone, Copy, Debug, PartialEq, Eq)]
pub struct DdgiGraph {
    /// The ray image.
    pub rays: RgResource,
    /// The irradiance atlas.
    pub irradiance: RgResource,
    /// The distance atlas.
    pub distance: RgResource,
    /// The cross-frame slots of the ray, irradiance and distance images.
    pub slots: (usize, usize, usize),
    /// The per-mesh distance-field instance buffer.
    pub instances: RgResource,
    /// The instance meta buffer.
    pub meta: RgResource,
    /// The trace's workgroups: 64 rays each, one row per budgeted probe.
    pub trace_groups: (u32, u32, u32),
    /// The irradiance blend's (and the border copy's) workgroups: 8x8 texels each.
    pub irradiance_groups: (u32, u32),
    /// The distance blend's workgroups: 8x8 texels each.
    pub distance_groups: (u32, u32),
}

/// The far-field volumes the trace samples when the distance field was built this frame: every
/// cascade, every occupancy volume and the albedo cache.
pub open spec fn spec_ddgi_far_field(gdf: Option<&GdfGraph>) -> Seq<(RgResource, RgUsage)> {
    match gdf {
        Some(g) => spec_each(g.cascades@, RgUsage::SampledReadCompute) + spec_each(g.occupancy@, RgUsage::SampledReadCompute)
            + seq![(g.albedo, RgUsage::SampledReadCompute)],
        None => Seq::empty(),
    }
}

/// The trace's accesses: it reads the distance-field instances and meta and the sky's
/// spherical harmonics, samples last frame's irradiance (multiple bounces), writes the ray image
/// and samples the far field.
pub open spec fn spec_ddgi_trace_accesses(g: DdgiGraph, sky_sh: RgResource, gdf: Option<&GdfGraph>) -> Seq<
    (RgResource, RgUsage),
> {
    seq![
        (g.instances, RgUsage::StorageReadCompute),
        (g.meta, RgUsage::StorageReadCompute),
        (g.irradiance, RgUsage::SampledReadCompute),
        (g.rays, RgUsage::StorageImageRwCompute),
        (sky_sh, RgUsage::StorageReadCompute),
    ] + spec_ddgi_far_field(gdf)
}

/// Declares the DDGI chain when its pipelines resolved: imports the ray, irradiance and distance
/// images (in that order) each through a new cross-frame slot, imports the distance-field
/// instance and meta buffers, and adds `ddgi-trace`, `ddgi-blend-irr`, `ddgi-blend-dist` and
/// `ddgi-border`. Otherwise the graph is left untouched.
pub fn add_ddgi_passes(
    graph: &mut RenderGraph,
    pipelines_ready: bool,
    rays: GiImage,
    irradiance: GiImage,
    distance: GiImage,
    sdf_instances: u64,
    sdf_meta: u64,
    sky_sh: RgResource,
    gdf: Option<&GdfGraph>,
    layout: DdgiLayout,
) -> (r: Option<DdgiGraph>)
    requires
        old(graph).resources@.len() + 5 < u32::MAX,
        old(graph).external_states@.len() + 3 < usize::MAX,
    ensures
        r is Some <==> pipelines_ready,
        r is None ==> final(graph).resources@ == old(graph).resources@ && final(graph).passes@ == old(graph).passes@
            && final(graph).external_states@ == old(graph).external_states@,
        final(graph).external_buffer_states@ == old(graph).external_buffer_states@,
        r matches Some(g) ==> ({
            let n = old(graph).external_states@.len() as int;
            let m = old(graph).resources@.len() as int;
            let p = old(graph).passes@.len() as int;
            let resources = final(graph).resources@;
            &&& g.slots == (n as usize, (n + 1) as usize, (n + 2) as usize)
            &&& final(graph).external_states@ == old(graph).external_states@.push(RgExternalState::spec_new(rays.layout)).push(
                RgExternalState::spec_new(irradiance.layout),
            ).push(RgExternalState::spec_new(distance.layout))
            &&& g.rays.index == m && g.irradiance.index == m + 1 && g.distance.index == m + 2
            &&& resources[m]@ == spec_slot_import(rays, g.slots.0)
            &&& resources[m + 1]@ == spec_slot_import(irradiance, g.slots.1)
            &&& resources[m + 2]@ == spec_slot_import(distance, g.slots.2)
            &&& g.instances.index < resources.len() && !resources[g.instances.index as int].is_image
            &&& resources[g.instances.index as int].buffer == sdf_instances
            &&& g.meta.index < resources.len() && !resources[g.meta.index as int].is_image
            &&& resources[g.meta.index as int].buffer == sdf_meta
            &&& forall|k: int| 0 <= k < m && k != g.instances.index && k != g.meta.index ==> #[trigger] resources[k]
                == old(graph).resources@[k]
            &&& final(graph).passes@.len() == p + 4
            &&& forall|k: int| 0 <= k < p ==> #[trigger] final(graph).passes@[k] == old(graph).passes@[k]
            &&& spec_compute_pass(final(graph).passes@[p], "ddgi-trace"@, spec_ddgi_trace_accesses(g, sky_sh, gdf))
            &&& spec_compute_pass(final(graph).passes@[p + 1], "ddgi-blend-irr"@,
                seq![(g.rays, RgUsage::SampledReadCompute), (g.irradiance, RgUsage::StorageImageRwCompute)])
            &&& spec_compute_pass(final(graph).passes@[p + 2], "ddgi-blend-dist"@,
                seq![(g.rays, RgUsage::SampledReadCompute), (g.distance, RgUsage::StorageImageRwCompute)])
            &&& spec_compute_pass(final(graph).passes@[p + 3], "ddgi-border"@,
                seq![(g.irradiance, RgUsage::StorageImageRwCompute)])
            &&& g.trace_groups == (spec_cover(layout.rays_per_probe, 64), layout.probe_budget, 1u32)
            &&& g.irradiance_groups == (spec_cover(layout.irradiance.0, 8), spec_cover(layout.irradiance.1, 8))
            &&& g.distance_groups == (spec_cover(layout.distance.0, 8), spec_cover(layout.distance.1, 8))
        }),
{
    if !pipelines_ready {
        return None;
    }
    let ghost m = graph.resources@.len();
    let (rays_res, rays_slot) = import_through_slot(graph, rays);
    let (irr_res, irr_slot) = import_through_slot(graph, irradiance);
    let (dist_res, dist_slot) = import_through_slot(graph, distance);
    let ghost images = graph.resources@;
    let instances = graph.import_buffer(sdf_instances, None);
    let ghost after_instances = graph.resources@;
    proof {
        assert forall|k: int| 0 <= k < m + 3 && k != instances.index implies #[trigger] after_instances[k] == images[k] by {
            if !spec_no_buffer_entry(spec_table(images), sdf_instances) {
                assert(spec_table(images)[k] == images[k]@);
            }
        }
        assert forall|k: int| m <= k < m + 3 implies #[trigger] after_instances[k] == images[k] by {
            assert(spec_table(images)[k] == images[k]@);
            assert(images[k]@.is_image);
        }
    }
    let meta = graph.import_buffer(sdf_meta, None);
    let ghost after_meta = graph.resources@;
    proof {
        assert forall|k: int| 0 <= k < m + 3 && k != meta.index implies #[trigger] after_meta[k] == after_instances[k] by {
            if !spec_no_buffer_entry(spec_table(after_instances), sdf_meta) {
                assert(spec_table(after_instances)[k] == after_instances[k]@);
            }
        }
        assert forall|k: int| m <= k < m + 3 implies #[trigger] after_meta[k] == after_instances[k] by {
            assert(spec_table(after_instances)[k] == after_instances[k]@);
            assert(after_instances[k]@.is_image);
        }
        if !spec_no_buffer_entry(spec_table(after_instances), sdf_meta) {
            assert(spec_table(after_instances)[meta.index as int] == after_instances[meta.index as int]@);
        }
    }
    let g = DdgiGraph {
        rays: rays_res,
        irradiance: irr_res,
        distance: dist_res,
        slots: (rays_slot, irr_slot, dist_slot),
        instances,
        meta,
        trace_groups: (cover(layout.rays_per_probe, 64), layout.probe_budget, 1),
        irradiance_groups: (cover(layout.irradiance.0, 8), cover(layout.irradiance.1, 8)),
        distance_groups: (cover(layout.distance.0, 8), cover(layout.distance.1, 8)),
    };
    let mut trace = vec![
        (instances, RgUsage::StorageReadCompute),
        (meta, RgUsage::StorageReadCompute),
        (irr_res, RgUsage::SampledReadCompute),
        (rays_res, RgUsage::StorageImageRwCompute),
        (sky_sh, RgUsage::StorageReadCompute),
    ];
    if let Some(field) = gdf {
        push_each(&mut trace, &field.cascades, RgUsage::SampledReadCompute);
        push_each(&mut trace, &field.occupancy, RgUsage::SampledReadCompute);
        trace.push((field.albedo, RgUsage::SampledReadCompute));
    }
    proof {
        assert(trace@ =~= spec_ddgi_trace_accesses(g, sky_sh, gdf));
    }
    let ghost table = graph.resources@;
    add_compute_pass(graph, "ddgi-trace", &trace);
    let blend_irr = vec![(rays_res, RgUsage::SampledReadCompute), (irr_res, RgUsage::StorageImageRwCompute)];
    proof {
        assert(blend_irr@ =~= seq![(rays_res, RgUsage::SampledReadCompute), (irr_res, RgUsage::StorageImageRwCompute)]);
    }
    add_compute_pass(graph, "ddgi-blend-irr", &blend_irr);
    let blend_dist = vec![(rays_res, RgUsage::SampledReadCompute), (dist_res, RgUsage::StorageImageRwCompute)];
    proof {
        assert(blend_dist@ =~= seq![(rays_res, RgUsage::SampledReadCompute), (dist_res, RgUsage::StorageImageRwCompute)]);
    }
    add_compute_pass(graph, "ddgi-blend-dist", &blend_dist);
    let border = vec![(irr_res, RgUsage::StorageImageRwCompute)];
    proof {
        assert(border@ =~= seq![(irr_res, RgUsage::StorageImageRwCompute)]);
    }
    add_compute_pass(graph, "ddgi-border", &border);
    proof {
        assert(graph.resources@ == table);
    }
    Some(g)
}

} // verus!

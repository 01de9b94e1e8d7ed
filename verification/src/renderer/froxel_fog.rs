//! The froxel fog's render-graph passes: the medium is injected into this frame's scatter volume
//! (reprojecting last frame's volume as history), then integrated front to back along each
//! froxel column. The three volumes ride cross-frame slots so their layouts survive the frame
//! boundary; what the passes bind and push is recorded beside the graph.
use vstd::prelude::*;
use crate::render_graph::{RgExternalState, RgResource, RgUsage};
use crate::render_graph::graph::{RenderGraph, spec_imported_image, spec_no_buffer_entry, spec_table};
use crate::vk_values::ASPECT_COLOR;
use super::graph_util::{add_compute_pass, cover, spec_compute_pass, spec_cover};

verus! {

/// A 3D volume to import: its image, its view and the layout it is in.
#[derive(Clone, Copy, Debug, PartialEq, Eq, Structural)]
pub struct FogVolume {
    /// The raw image handle.
    pub image: u64,
    /// The raw image-view handle.
    pub view: u64,
    /// The layout the volume is in at import.
    pub layout: i32,
}

/// What the froxel fog declared: the graph resources of its volumes and buffers, the
/// cross-frame slots of its three volumes, and the workgroup counts of its two dispatches.
#[derive(Clone, Copy, Debug, PartialEq, Eq)]
pub struct FroxelFogGraph {
    /// This frame's scatter volume (the injection target).
    pub write: RgResource,
    /// Last frame's scatter volume (the reprojection history).
    pub history: RgResource,
    /// The integrated volume.
    pub integration: RgResource,
    /// The light-cluster buffer.
    pub clusters: RgResource,
    /// The light-list buffer.
    pub lights: RgResource,
    /// The cross-frame slots of the write, history and integration volumes.
    pub slots: (usize, usize, usize),
    /// The injection's workgroups: 8x8x4 froxels each.
    pub inject_groups: (u32, u32, u32),
    /// The integration's workgroups: 8x8 froxel columns each.
    pub integrate_groups: (u32, u32),
}

/// The injection's accesses: it writes this frame's volume, samples the history, reads the
/// light clusters and list, and samples the cloud shadow when there is one.
pub open spec fn spec_inject_accesses(g: FroxelFogGraph, cloud_shadow: Option<RgResource>) -> Seq<(RgResource, RgUsage)> {
    let base = seq![
        (g.write, RgUsage::StorageImageRwCompute),
        (g.history, RgUsage::SampledReadCompute),
        (g.clusters, RgUsage::StorageReadCompute),
        (g.lights, RgUsage::StorageReadCompute),
    ];
    match cloud_shadow {
        Some(shadow) => base.push((shadow, RgUsage::SampledReadCompute)),
        None => base,
    }
}

/// The integration's accesses: it reads and writes this frame's volume and writes the integrated
/// volume.
pub open spec fn spec_integrate_accesses(g: FroxelFogGraph) -> Seq<(RgResource, RgUsage)> {
    seq![(g.write, RgUsage::StorageImageRwCompute), (g.integration, RgUsage::StorageImageRwCompute)]
}

/// Declares the froxel fog over a `grid` of froxels: allocates a cross-frame slot for each of the
/// three volumes (first-use state in its current layout) and imports it through that slot,
/// imports the light-cluster and light-list buffers, then adds the `fog-inject` and
/// `fog-integrate` compute passes and `fog-integration-read`, which leaves the integrated volume
/// in the shader-read layout that the composite and the light sets sample it in.
pub fn add_froxel_fog_passes(
    graph: &mut RenderGraph,
    write: FogVolume,
    history: FogVolume,
    integration: FogVolume,
    cluster_buffer: u64,
    light_buffer: u64,
    cloud_shadow: Option<RgResource>,
    grid: (u32, u32, u32),
) -> (r: FroxelFogGraph)
    requires
        old(graph).resources@.len() + 5 < u32::MAX,
        old(graph).external_states@.len() + 3 < usize::MAX,
    ensures
        ({
            let n = old(graph).external_states@.len() as int;
            let m = old(graph).resources@.len() as int;
            let states = final(graph).external_states@;
            &&& r.slots == (n as usize, (n + 1) as usize, (n + 2) as usize)
            &&& states.len() == n + 3
            &&& forall|k: int| 0 <= k < n ==> #[trigger] states[k] == old(graph).external_states@[k]
            &&& states[n] == RgExternalState::spec_new(write.layout)
            &&& states[n + 1] == RgExternalState::spec_new(history.layout)
            &&& states[n + 2] == RgExternalState::spec_new(integration.layout)
            &&& r.write.index == m && r.history.index == m + 1 && r.integration.index == m + 2
            &&& final(graph).resources@.len() >= m + 3
            &&& forall|k: int| 0 <= k < m && k != r.clusters.index && k != r.lights.index ==> #[trigger] final(graph).resources@[k]
                == old(graph).resources@[k]
            &&& final(graph).resources@[m]@ == spec_imported_image(write.image, write.view, ASPECT_COLOR,
                write.layout, Some(r.slots.0), states)
            &&& final(graph).resources@[m + 1]@ == spec_imported_image(history.image, history.view, ASPECT_COLOR,
                history.layout, Some(r.slots.1), states)
            &&& final(graph).resources@[m + 2]@ == spec_imported_image(integration.image, integration.view,
                ASPECT_COLOR, integration.layout, Some(r.slots.2), states)
            &&& r.clusters.index < final(graph).resources@.len()
            &&& !final(graph).resources@[r.clusters.index as int].is_image
            &&& final(graph).resources@[r.clusters.index as int].buffer == cluster_buffer
            &&& r.lights.index < final(graph).resources@.len()
            &&& !final(graph).resources@[r.lights.index as int].is_image
            &&& final(graph).resources@[r.lights.index as int].buffer == light_buffer
            &&& final(graph).passes@.len() == old(graph).passes@.len() + 3
            &&& forall|k: int| 0 <= k < old(graph).passes@.len() ==> #[trigger] final(graph).passes@[k] == old(graph).passes@[k]
            &&& spec_compute_pass(final(graph).passes@[old(graph).passes@.len() as int], "fog-inject"@,
                spec_inject_accesses(r, cloud_shadow))
            &&& spec_compute_pass(final(graph).passes@[old(graph).passes@.len() as int + 1], "fog-integrate"@,
                spec_integrate_accesses(r))
            &&& spec_compute_pass(final(graph).passes@[old(graph).passes@.len() as int + 2], "fog-integration-read"@,
                seq![(r.integration, RgUsage::SampledReadCompute)])
            &&& r.inject_groups == (spec_cover(grid.0, 8), spec_cover(grid.1, 8), spec_cover(grid.2, 4))
            &&& r.integrate_groups == (spec_cover(grid.0, 8), spec_cover(grid.1, 8))
            &&& final(graph).external_buffer_states@ == old(graph).external_buffer_states@
        }),
{
    let ghost n = graph.external_states@.len();
    let ghost m = graph.resources@.len();
    let write_slot = graph.alloc_external_state(RgExternalState::new(write.layout));
    let write_res = graph.import_image_3d(write.image, write.view, write.layout, Some(write_slot));
    let history_slot = graph.alloc_external_state(RgExternalState::new(history.layout));
    let history_res = graph.import_image_3d(history.image, history.view, history.layout, Some(history_slot));
    let integration_slot = graph.alloc_external_state(RgExternalState::new(integration.layout));
    let integration_res = graph.import_image_3d(
        integration.image,
        integration.view,
        integration.layout,
        Some(integration_slot),
    );
    let ghost volumes = graph.resources@;
    let clusters = graph.import_buffer(cluster_buffer, None);
    let ghost after_clusters = graph.resources@;
    proof {
        assert forall|k: int| 0 <= k < m + 3 && k != clusters.index implies #[trigger] after_clusters[k] == volumes[k] by {
            if !spec_no_buffer_entry(spec_table(volumes), cluster_buffer) {
                assert(spec_table(volumes)[k] == volumes[k]@);
            }
        }
        assert forall|k: int| m <= k < m + 3 implies #[trigger] after_clusters[k] == volumes[k] by {
            assert(spec_table(volumes)[k] == volumes[k]@);
            assert(volumes[k]@.is_image);
        }
    }
    let lights = graph.import_buffer(light_buffer, None);
    let ghost after_lights = graph.resources@;
    proof {
        assert forall|k: int| 0 <= k < m + 3 && k != lights.index implies #[trigger] after_lights[k] == after_clusters[k] by {
            if !spec_no_buffer_entry(spec_table(after_clusters), light_buffer) {
                assert(spec_table(after_clusters)[k] == after_clusters[k]@);
            }
        }
        assert forall|k: int| m <= k < m + 3 implies #[trigger] after_lights[k] == after_clusters[k] by {
            assert(spec_table(after_clusters)[k] == after_clusters[k]@);
            assert(after_clusters[k]@.is_image);
        }
    }
    let r = FroxelFogGraph {
        write: write_res,
        history: history_res,
        integration: integration_res,
        clusters,
        lights,
        slots: (write_slot, history_slot, integration_slot),
        inject_groups: (cover(grid.0, 8), cover(grid.1, 8), cover(grid.2, 4)),
        integrate_groups: (cover(grid.0, 8), cover(grid.1, 8)),
    };
    let mut inject = vec![
        (write_res, RgUsage::StorageImageRwCompute),
        (history_res, RgUsage::SampledReadCompute),
        (clusters, RgUsage::StorageReadCompute),
        (lights, RgUsage::StorageReadCompute),
    ];
    if let Some(shadow) = cloud_shadow {
        inject.push((shadow, RgUsage::SampledReadCompute));
    }
    proof {
        assert(inject@ =~= spec_inject_accesses(r, cloud_shadow));
    }
    let ghost before = graph.passes@;
    let ghost table = graph.resources@;
    add_compute_pass(graph, "fog-inject", &inject);
    let integrate = vec![(write_res, RgUsage::StorageImageRwCompute), (integration_res, RgUsage::StorageImageRwCompute)];
    proof {
        assert(integrate@ =~= spec_integrate_accesses(r));
    }
    add_compute_pass(graph, "fog-integrate", &integrate);
    let rest = vec![(integration_res, RgUsage::SampledReadCompute)];
    proof {
        assert(rest@ =~= seq![(integration_res, RgUsage::SampledReadCompute)]);
    }
    add_compute_pass(graph, "fog-integration-read", &rest);
    proof {
        assert(graph.resources@ == table);
        assert(table == after_lights);
    }
    r
}

} // verus!

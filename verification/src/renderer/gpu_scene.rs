//! The GPU scene's counters and the settings the host pushes into it each sync.
use vstd::prelude::*;
use super::{
    Renderer, SceneViewClass, SCENE_CUT_AUTO, SCENE_CUT_FORCE_COARSE, SCENE_CUT_FORCE_FINE,
    SCENE_VISIBILITY_COUNTER_WORDS, spec_cut_setting, spec_is_cut_setting,
};

verus! {

impl Renderer {
    /// The latest fence-completed visibility counters for the active view:
    /// `[visible, retest, list overflow flags, records, record/bucket pressure, transparent, _, _]`.
    pub fn visibility_counters(&self) -> (r: [u32; SCENE_VISIBILITY_COUNTER_WORDS])
        ensures
            r == self.visibility_counters,
    {
        self.visibility_counters
    }

    /// The same, for the global-illumination reach view; all zero while the distance field is
    /// off.
    pub fn gi_visibility_counters(&self) -> (r: [u32; SCENE_VISIBILITY_COUNTER_WORDS])
        ensures
            r == self.gi_visibility_counters,
    {
        self.gi_visibility_counters
    }

    /// Deformed instances the interaction field's re-centring scroll has reset since boot.
    pub fn wind_interaction_resets(&self) -> (r: u64)
        ensures
            r == self.wind_interaction_resets,
    {
        self.wind_interaction_resets
    }

    /// GPU missing-page requests drained since startup (the page-fault total).
    pub fn page_faults(&self) -> (r: u64)
        ensures
            r == self.page_faults,
    {
        self.page_faults
    }

    /// Replaces the populated executor bin set (the mirror pushes it per sync).
    pub fn set_live_executor_bins(&mut self, bins: Vec<(u32, u32)>)
        ensures
            final(self).live_executor_bins@ == bins@,
            final(self).live_draw_record_bound == old(self).live_draw_record_bound,
            final(self).micro_field_directory == old(self).micro_field_directory,
            *final(self) == (Renderer { live_executor_bins: final(self).live_executor_bins, ..*old(self) }),
    {
        self.live_executor_bins = bins;
    }

    /// Publishes the mirror's upper bound on emitted draw records, which bounds the fixed-slice
    /// indirect draws on a device without `drawIndirectCount`.
    pub fn set_live_draw_record_bound(&mut self, bound: u32)
        ensures
            final(self).live_draw_record_bound == bound,
            final(self).live_executor_bins@ == old(self).live_executor_bins@,
            *final(self) == (Renderer { live_draw_record_bound: final(self).live_draw_record_bound, ..*old(self) }),
    {
        self.live_draw_record_bound = bound;
    }

    /// Publishes the resident micro-field tile directory (byte offset within the fields arena
    /// and entry count) the micro reconstruction pass dispatches over, or `None` while no field
    /// tiles are resident. With the micro field switched off the directory stays empty, so no
    /// reconstructed blade pass runs.
    pub fn set_micro_field_directory(&mut self, directory: Option<(u32, u32)>)
        ensures
            final(self).micro_field_directory == (if old(self).micro_field_enabled {
                directory
            } else {
                None
            }),
            final(self).micro_field_enabled == old(self).micro_field_enabled,
            *final(self) == (Renderer { micro_field_directory: final(self).micro_field_directory, ..*old(self) }),
    {
        self.micro_field_directory = if self.micro_field_enabled {
            directory
        } else {
            None
        };
    }

    /// Records the retained-mesh host-byte figure the mirror reports (render statistics).
    pub fn record_retained_mesh_bytes(&mut self, bytes: u64)
        ensures
            final(self).retained_mesh_cpu_bytes == bytes,
            *final(self) == (Renderer { retained_mesh_cpu_bytes: final(self).retained_mesh_cpu_bytes, ..*old(self) }),
    {
        self.retained_mesh_cpu_bytes = bytes;
    }

    /// `view`'s pinned hierarchy cut, or [`SCENE_CUT_AUTO`] when projected error chooses it.
    pub fn cut_override(&self, view: SceneViewClass) -> (r: u32)
        ensures
            r == self.cut_override@[view.spec_ordinal()],
            spec_is_cut_setting(r),
    {
        self.cut_override.get(view.ordinal() as usize)
    }

    /// Pins `view`'s hierarchy cut to the coarse or fine representation, or returns it to
    /// following projected error for any other value.
    pub fn set_cut_override(&mut self, view: SceneViewClass, cut: u32)
        ensures
            final(self).cut_override@ == old(self).cut_override@.update(view.spec_ordinal(), spec_cut_setting(cut)),
            *final(self) == (Renderer { cut_override: final(self).cut_override, ..*old(self) }),
    {
        self.cut_override.set(view.ordinal() as usize, cut);
    }
}

} // verus!

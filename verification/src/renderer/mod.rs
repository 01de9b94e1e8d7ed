//! The renderer's host-facing control state: view publishing and window capture, the scene
//! counters the frame loop reports, the hierarchy-cut pins, and wind-edit detection. The device
//! work these settings drive (query pools, capture rings, uniform writes) lives with the device;
//! this state decides what that work is.
pub mod capture;
pub mod frame;
pub mod frame_plan;
pub mod gpu_scene;
pub mod graph_util;
pub mod bloom;
pub mod clouds;
pub mod froxel_fog;
pub mod gi;
pub mod host_settings;
pub mod lighting;

use vstd::prelude::*;

verus! {

/// Number of independently rendered views.
pub const VIEW_COUNT: usize = 3;

/// Number of scene view classes a hierarchy walk is tuned for.
pub const SCENE_VIEW_CLASSES: usize = 3;

/// Words of the visibility counter block a view reads back each frame.
pub const SCENE_VISIBILITY_COUNTER_WORDS: usize = 8;

/// The hierarchy cut follows projected error.
pub const SCENE_CUT_AUTO: u32 = 0;

/// The hierarchy cut is pinned to the coarse (aggregate) representation.
pub const SCENE_CUT_FORCE_COARSE: u32 = 1;

/// The hierarchy cut is pinned to the fine (triangle) representation.
pub const SCENE_CUT_FORCE_FINE: u32 = 2;

/// A rendered view.
#[derive(Clone, Copy, Debug, PartialEq, Eq, Structural)]
pub enum ViewId {
    /// The editor / game scene.
    Scene,
    /// The asset preview pane.
    AssetPreview,
    /// The background thumbnail renderer.
    Thumbnail,
}

impl ViewId {
    /// The view's slot in per-view tables.
    pub open spec fn spec_index(self) -> int {
        match self {
            ViewId::Scene => 0,
            ViewId::AssetPreview => 1,
            ViewId::Thumbnail => 2,
        }
    }

    /// The view's slot in per-view tables.
    pub fn index(self) -> (r: usize)
        ensures
            r == self.spec_index(),
            r < VIEW_COUNT,
    {
        match self {
            ViewId::Scene => 0,
            ViewId::AssetPreview => 1,
            ViewId::Thumbnail => 2,
        }
    }

    /// The view in a per-view slot.
    pub fn from_index(index: usize) -> (r: Self)
        requires
            index < VIEW_COUNT,
        ensures
            r.spec_index() == index,
    {
        if index == 0 {
            ViewId::Scene
        } else if index == 1 {
            ViewId::AssetPreview
        } else {
            ViewId::Thumbnail
        }
    }
}

/// What a scene walk renders for: the camera image, shadow pages, or global illumination.
#[derive(Clone, Copy, Debug, PartialEq, Eq, Structural)]
pub enum SceneViewClass {
    /// The camera image.
    Camera,
    /// Virtual shadow pages.
    ShadowPage,
    /// The global-illumination reach view.
    Gi,
}

impl SceneViewClass {
    /// The class's slot in per-class tables.
    pub open spec fn spec_ordinal(self) -> int {
        match self {
            SceneViewClass::Camera => 0,
            SceneViewClass::ShadowPage => 1,
            SceneViewClass::Gi => 2,
        }
    }

    /// The class's slot in per-class tables.
    pub fn ordinal(self) -> (r: u32)
        ensures
            r == self.spec_ordinal(),
            r < SCENE_VIEW_CLASSES,
    {
        match self {
            SceneViewClass::Camera => 0,
            SceneViewClass::ShadowPage => 1,
            SceneViewClass::Gi => 2,
        }
    }
}

/// What the present swapchain supports.
#[derive(Clone, Copy, Debug, PartialEq, Eq, Structural)]
pub struct SwapchainCaps {
    /// The surface images carry `TRANSFER_SRC` usage, so a presented image can be copied.
    pub capture_supported: bool,
}

/// A spot light's virtual-shadow arming.
#[derive(Clone, Copy, Debug, PartialEq, Eq)]
pub struct SpotShadow {
    /// The light's view-projection, column-major, as `f32` bits.
    pub view_proj_bits: [u32; 16],
    /// The light's index in the frame's light list.
    pub light_index: u32,
    /// Whether it casts this frame.
    pub casting: bool,
}

/// A point light's virtual-shadow arming.
#[derive(Clone, Copy, Debug, PartialEq, Eq)]
pub struct PointShadow {
    /// The light's world position, as `f32` bits.
    pub position_bits: [u32; 3],
    /// The far plane, as `f32` bits.
    pub far_plane_bits: u32,
    /// The light's index in the frame's light list.
    pub light_index: u32,
    /// Whether it casts this frame.
    pub casting: bool,
}

/// A renderer request that cannot be carried out.
#[derive(Debug)]
pub enum Error {
    /// A capture or shader request was refused; the message says why.
    ShaderLoad(String),
    /// Submission data is inconsistent; the message says how.
    InvalidUploadData(String),
}

/// The renderer's control state.
pub struct Renderer {
    /// The view the next frame renders.
    pub active_view: ViewId,
    /// Per view: whether its frames are read back for the host's shared-memory publish.
    pub shm_publish_enabled: [bool; VIEW_COUNT],
    /// The view and frame slot whose completed readback the host may publish.
    pub pending_shm_publish: Option<(usize, usize)>,
    /// The present swapchain, when the host presents to a window.
    pub swapchain: Option<SwapchainCaps>,
    /// Where the next presented image is captured to.
    pub capture_next_window_path: Option<String>,
    /// The latest fence-completed visibility counters for the active view.
    pub visibility_counters: [u32; SCENE_VISIBILITY_COUNTER_WORDS],
    /// The same for the global-illumination reach view.
    pub gi_visibility_counters: [u32; SCENE_VISIBILITY_COUNTER_WORDS],
    /// Deformed instances the interaction field's re-centring scroll has reset since boot.
    pub wind_interaction_resets: u64,
    /// GPU missing-page requests drained since startup.
    pub page_faults: u64,
    /// The populated executor bins.
    pub live_executor_bins: Vec<(u32, u32)>,
    /// The mirror's upper bound on emitted draw records.
    pub live_draw_record_bound: u32,
    /// Whether the micro-field reconstruction passes run.
    pub micro_field_enabled: bool,
    /// The resident micro-field tile directory (byte offset, entry count).
    pub micro_field_directory: Option<(u32, u32)>,
    /// Host bytes the retained meshes hold (render statistics).
    pub retained_mesh_cpu_bytes: u64,
    /// Per scene view class: the pinned hierarchy cut, or [`SCENE_CUT_AUTO`].
    pub cut_override: CutPins,
    /// Whether the sun casts virtual shadows this frame.
    pub directional_shadow_casting: bool,
    /// The spot light's virtual-shadow space: its view-projection (column-major `f32` bits),
    /// its index in the frame's light list, and whether it casts.
    pub spot_shadow: SpotShadow,
    /// The point light's six virtual face spaces: its world position and far plane (`f32`
    /// bits), its index in the frame's light list, and whether it casts.
    pub point_shadow: PointShadow,
    /// Whether a wind edit landed since the last frame.
    pub wind_discontinuity: bool,
    /// The number of local wind sources last frame.
    pub wind_source_count: usize,
    /// Digests of last frame's first local wind sources.
    pub wind_source_digest: Vec<u64>,
    /// Digest of last frame's authored global wind field.
    pub wind_authored_digest: u64,
}

/// The cut a pin request stands for: the coarse or fine pin, and anything else following
/// projected error.
pub open spec fn spec_cut_setting(cut: u32) -> u32 {
    if cut == SCENE_CUT_FORCE_COARSE || cut == SCENE_CUT_FORCE_FINE {
        cut
    } else {
        SCENE_CUT_AUTO
    }
}

/// Whether a cut value is one of the three settings: projected error, or the coarse or fine pin.
pub open spec fn spec_is_cut_setting(cut: u32) -> bool {
    cut == SCENE_CUT_AUTO || cut == SCENE_CUT_FORCE_COARSE || cut == SCENE_CUT_FORCE_FINE
}

/// The hierarchy-cut pin of each scene view class. Every pin is always one of the three
/// settings: projected error, or the coarse or fine pin.
#[derive(Clone, Copy, Debug)]
pub struct CutPins {
    pins: [u32; SCENE_VIEW_CLASSES],
}

impl View for CutPins {
    type V = Seq<u32>;

    closed spec fn view(&self) -> Seq<u32> {
        self.pins@
    }
}

impl CutPins {
    #[verifier::type_invariant]
    spec fn pins_are_settings(self) -> bool {
        forall|i: int| 0 <= i < SCENE_VIEW_CLASSES ==> spec_is_cut_setting(#[trigger] self.pins@[i])
    }

    /// Every view class pinned to the setting `cut` stands for.
    pub fn uniform(cut: u32) -> (r: Self)
        ensures
            r@.len() == SCENE_VIEW_CLASSES,
            forall|i: int| 0 <= i < SCENE_VIEW_CLASSES ==> #[trigger] r@[i] == spec_cut_setting(cut),
    {
        let setting = if cut == SCENE_CUT_FORCE_COARSE || cut == SCENE_CUT_FORCE_FINE {
            cut
        } else {
            SCENE_CUT_AUTO
        };
        CutPins { pins: [setting, setting, setting] }
    }

    /// The pin of view class `index`: always one of the three settings.
    pub fn get(&self, index: usize) -> (r: u32)
        requires
            index < SCENE_VIEW_CLASSES,
        ensures
            r == self@[index as int],
            spec_is_cut_setting(r),
    {
        proof {
            use_type_invariant(self);
        }
        self.pins[index]
    }

    /// Pins view class `index` to the setting `cut` stands for.
    pub fn set(&mut self, index: usize, cut: u32)
        requires
            index < SCENE_VIEW_CLASSES,
        ensures
            final(self)@ == old(self)@.update(index as int, spec_cut_setting(cut)),
    {
        proof {
            use_type_invariant(&*self);
        }
        let setting = if cut == SCENE_CUT_FORCE_COARSE || cut == SCENE_CUT_FORCE_FINE {
            cut
        } else {
            SCENE_CUT_AUTO
        };
        let mut pins = self.pins;
        pins.set(index, setting);
        self.pins = pins;
    }
}

impl Renderer {
    /// A renderer at boot: the scene view active, nothing published or captured, zeroed
    /// counters, and every view class's cut set from `cut_override`.
    pub fn new(swapchain: Option<SwapchainCaps>, micro_field_enabled: bool, cut_override: u32) -> (r: Self)
        ensures
            r.active_view == ViewId::Scene,
            r.shm_publish_enabled@ == seq![false, false, false],
            r.pending_shm_publish is None,
            r.swapchain == swapchain,
            r.capture_next_window_path is None,
            forall|i: int| 0 <= i < SCENE_VISIBILITY_COUNTER_WORDS ==> r.visibility_counters@[i] == 0
                && r.gi_visibility_counters@[i] == 0,
            r.wind_interaction_resets == 0,
            r.page_faults == 0,
            r.live_executor_bins@.len() == 0,
            r.live_draw_record_bound == 0,
            r.micro_field_enabled == micro_field_enabled,
            r.micro_field_directory is None,
            r.retained_mesh_cpu_bytes == 0,
            r.cut_override@.len() == SCENE_VIEW_CLASSES,
            forall|i: int| 0 <= i < SCENE_VIEW_CLASSES ==> r.cut_override@[i] == spec_cut_setting(cut_override),
            !r.directional_shadow_casting,
            r.spot_shadow.light_index == 0 && !r.spot_shadow.casting,
            forall|i: int| 0 <= i < 16 ==> r.spot_shadow.view_proj_bits@[i] == 0,
            r.point_shadow.far_plane_bits == 0 && r.point_shadow.light_index == 0 && !r.point_shadow.casting,
            forall|i: int| 0 <= i < 3 ==> r.point_shadow.position_bits@[i] == 0,
            !r.wind_discontinuity,
            r.wind_source_count == 0,
            r.wind_source_digest@.len() == 0,
            r.wind_authored_digest == 0,
    {
        Renderer {
            active_view: ViewId::Scene,
            shm_publish_enabled: [false, false, false],
            pending_shm_publish: None,
            swapchain,
            capture_next_window_path: None,
            visibility_counters: [0, 0, 0, 0, 0, 0, 0, 0],
            gi_visibility_counters: [0, 0, 0, 0, 0, 0, 0, 0],
            wind_interaction_resets: 0,
            page_faults: 0,
            live_executor_bins: Vec::new(),
            live_draw_record_bound: 0,
            micro_field_enabled,
            micro_field_directory: None,
            retained_mesh_cpu_bytes: 0,
            cut_override: CutPins::uniform(cut_override),
            directional_shadow_casting: false,
            spot_shadow: SpotShadow { view_proj_bits: [0, 0, 0, 0, 0, 0, 0, 0, 0, 0, 0, 0, 0, 0, 0, 0], light_index: 0, casting: false },
            point_shadow: PointShadow { position_bits: [0, 0, 0], far_plane_bits: 0, light_index: 0, casting: false },
            wind_discontinuity: false,
            wind_source_count: 0,
            wind_source_digest: Vec::new(),
            wind_authored_digest: 0,
        }
    }
}

} // verus!

//! Which of the frame's pass chains the offscreen render arms. Before it builds the graph the
//! renderer resolves a pipeline for each chain it wants this frame; a chain it does not want pays
//! nothing. This module is that decision, from the frame's settings and readiness flags to the
//! set of chains.
use vstd::prelude::*;

verus! {

/// The view modes that change which passes run; every other mode draws the lit scene.
#[derive(Clone, Copy, Debug, PartialEq, Eq, Structural)]
pub enum FrameView {
    /// The lit scene.
    Lit,
    /// The lit scene with a wireframe overlay.
    LitWireframe,
    /// The motion-vector visualization.
    MotionVectors,
    /// The cloud-density debug view.
    CloudDensity,
}

/// The settings and readiness of one frame that decide its chains.
#[derive(Clone, Copy, Debug, PartialEq, Eq, Structural)]
pub struct FrameFeatures {
    /// The depth prepass is enabled.
    pub depth_prepass: bool,
    /// The light clusters need a cull dispatch this frame.
    pub cluster_dispatch_pending: bool,
    /// The frame built skinning dispatches.
    pub skin_dispatches: bool,
    /// The frame built morph dispatches.
    pub morph_dispatches: bool,
    /// Virtual shadow-map pages need rendering.
    pub shadow_pages: bool,
    /// The screen-space effects are ready and the active view's screen-space targets exist.
    pub gbuffer_ready: bool,
    /// Ambient occlusion is on.
    pub ssao: bool,
    /// Contact shadows are on.
    pub contact: bool,
    /// Screen-space global illumination is on.
    pub ssgi: bool,
    /// Screen-space reflections are on.
    pub ssr: bool,
    /// Whether the screen-space effects themselves ask for the G-buffer prepass.
    pub screen_effects_prepass: bool,
    /// Ray-traced reflections are on.
    pub rt_reflections: bool,
    /// ReSTIR is on and supported, and the view's reservoirs are built.
    pub restir: bool,
    /// Sky occlusion is active (image lighting, its toggle, and a ready distance field).
    pub sky_occlusion: bool,
    /// DDGI is on and ready.
    pub ddgi: bool,
    /// The global distance field is on and ready.
    pub gdf: bool,
    /// The anti-aliasing mode is TAA.
    pub taa: bool,
    /// The anti-aliasing mode is FXAA.
    pub fxaa: bool,
    /// The active view has its motion and motion-depth targets.
    pub motion_targets: bool,
    /// The active view has its scratch target.
    pub scratch: bool,
    /// Bloom is on.
    pub bloom: bool,
    /// Height fog is on.
    pub fog: bool,
    /// The fog is volumetric.
    pub volumetric_fog: bool,
    /// Aerial perspective is authored.
    pub aerial_perspective: bool,
    /// The atmosphere has baked its lookup tables.
    pub atmosphere_live: bool,
    /// Clouds are on.
    pub clouds: bool,
    /// The cloud weather map must be regenerated.
    pub cloud_weather_dirty: bool,
    /// Clouds cast shadows.
    pub cloud_shadows: bool,
    /// The active view mode.
    pub view: FrameView,
    /// The grid is shown.
    pub grid: bool,
    /// This render submitted overlay geometry.
    pub overlay: bool,
}

/// The chains the frame arms.
#[derive(Clone, Copy, Debug, PartialEq, Eq, Structural)]
pub struct FrameWants {
    /// The depth prepass.
    pub depth_prepass: bool,
    /// The light-cluster cull.
    pub light_cull: bool,
    /// Compute skinning.
    pub skin: bool,
    /// Morph-target deformation.
    pub morph: bool,
    /// Virtual shadow-map rendering.
    pub shadow: bool,
    /// The thin G-buffer prepass (and the screen-space chain's resolve).
    pub gbuffer: bool,
    /// Ambient occlusion and its blur.
    pub gtao: bool,
    /// Contact shadows.
    pub contact: bool,
    /// Screen-space GI and its blur.
    pub ssgi: bool,
    /// Screen-space reflections.
    pub ssr: bool,
    /// The previous-color copy the reflections and SSGI gather from.
    pub copy_color: bool,
    /// Specular occlusion and its blur.
    pub specocc: bool,
    /// The DDGI chain.
    pub ddgi: bool,
    /// The distance-field build.
    pub gdf: bool,
    /// The ReSTIR chain.
    pub restir: bool,
    /// The motion-vector prepass.
    pub motion: bool,
    /// The SSGI temporal accumulator.
    pub ssgi_accum: bool,
    /// Distance-field ambient occlusion.
    pub dfao: bool,
    /// The TAA resolve.
    pub taa: bool,
    /// The FXAA resolve.
    pub fxaa: bool,
    /// Bloom.
    pub bloom: bool,
    /// The reactive-coverage mask for TAA.
    pub reactive: bool,
    /// The height-fog composite.
    pub fog: bool,
    /// The cloud weather-map bake.
    pub cloud_weather: bool,
    /// The cloud-density debug view.
    pub cloud_debug: bool,
    /// The lit cloud chain (raymarch, reconstruct, upscale).
    pub cloud_lit: bool,
    /// The cloud-shadow cascades.
    pub cloud_shadow: bool,
    /// The froxel fog's inject and integrate.
    pub froxel_fog: bool,
    /// The aerial-perspective fill.
    pub aerial: bool,
    /// The grid.
    pub grid: bool,
    /// The overlay and its depth.
    pub overlay: bool,
    /// The wireframe overlay.
    pub wireframe_overlay: bool,
    /// The motion-vector visualization.
    pub motion_visualize: bool,
}

/// The chains a frame with features `f` arms.
pub open spec fn spec_frame_wants(f: FrameFeatures) -> FrameWants {
    let ssgi = f.gbuffer_ready && f.ssgi;
    let ssr = f.gbuffer_ready && f.ssr;
    let rt_reflections = f.gbuffer_ready && f.rt_reflections;
    let restir = f.restir && f.gbuffer_ready;
    let dfao = f.gbuffer_ready && f.sky_occlusion;
    let screen = restir || rt_reflections || dfao || f.screen_effects_prepass;
    let cloud_motion = f.clouds && f.view != FrameView::CloudDensity;
    let motion = (f.taa || ssgi || dfao || cloud_motion) && f.motion_targets;
    let aerial = f.aerial_perspective && f.atmosphere_live;
    FrameWants {
        depth_prepass: f.depth_prepass,
        light_cull: f.cluster_dispatch_pending,
        skin: f.skin_dispatches,
        morph: f.morph_dispatches,
        shadow: f.shadow_pages,
        gbuffer: screen,
        gtao: screen && f.gbuffer_ready && f.ssao,
        contact: screen && f.gbuffer_ready && f.contact,
        ssgi: screen && ssgi,
        ssr: screen && ssr,
        copy_color: screen && (ssgi || ssr || rt_reflections),
        specocc: dfao,
        ddgi: f.ddgi,
        gdf: f.gdf,
        restir,
        motion,
        ssgi_accum: ssgi && f.motion_targets,
        dfao: dfao && motion,
        taa: f.taa && f.scratch,
        fxaa: f.fxaa && f.scratch,
        bloom: f.bloom,
        reactive: f.taa,
        fog: f.view != FrameView::CloudDensity && (f.fog || aerial || f.clouds),
        cloud_weather: f.clouds && f.cloud_weather_dirty,
        cloud_debug: f.clouds && f.view == FrameView::CloudDensity,
        cloud_lit: cloud_motion,
        cloud_shadow: f.clouds && f.cloud_shadows,
        froxel_fog: f.fog && f.volumetric_fog,
        aerial,
        grid: f.grid,
        overlay: f.overlay,
        wireframe_overlay: f.view == FrameView::LitWireframe,
        motion_visualize: f.view == FrameView::MotionVectors,
    }
}

/// Decides which chains the frame arms. ReSTIR, ray-traced reflections and distance-field AO
/// each force the G-buffer prepass on (they reconstruct position and normal from it); TAA,
/// SSGI, DFAO and lit clouds each force the motion prepass on when the view has motion targets;
/// the cloud debug view replaces the lit cloud chain and the fog composite.
pub fn frame_wants(f: FrameFeatures) -> (r: FrameWants)
    ensures
        r == spec_frame_wants(f),
        r.restir || r.specocc || (f.gbuffer_ready && f.rt_reflections) ==> r.gbuffer,
        r.motion ==> f.motion_targets,
        r.dfao ==> r.motion && r.gbuffer,
        !(r.cloud_debug && r.cloud_lit),
        r.cloud_debug ==> !r.fog,
{
    let ssgi = f.gbuffer_ready && f.ssgi;
    let ssr = f.gbuffer_ready && f.ssr;
    let rt_reflections = f.gbuffer_ready && f.rt_reflections;
    let restir = f.restir && f.gbuffer_ready;
    let dfao = f.gbuffer_ready && f.sky_occlusion;
    let screen = restir || rt_reflections || dfao || f.screen_effects_prepass;
    let cloud_density = match f.view {
        FrameView::CloudDensity => true,
        _ => false,
    };
    let cloud_motion = f.clouds && !cloud_density;
    let motion = (f.taa || ssgi || dfao || cloud_motion) && f.motion_targets;
    let aerial = f.aerial_perspective && f.atmosphere_live;
    FrameWants {
        depth_prepass: f.depth_prepass,
        light_cull: f.cluster_dispatch_pending,
        skin: f.skin_dispatches,
        morph: f.morph_dispatches,
        shadow: f.shadow_pages,
        gbuffer: screen,
        gtao: screen && f.gbuffer_ready && f.ssao,
        contact: screen && f.gbuffer_ready && f.contact,
        ssgi: screen && ssgi,
        ssr: screen && ssr,
        copy_color: screen && (ssgi || ssr || rt_reflections),
        specocc: dfao,
        ddgi: f.ddgi,
        gdf: f.gdf,
        restir,
        motion,
        ssgi_accum: ssgi && f.motion_targets,
        dfao: dfao && motion,
        taa: f.taa && f.scratch,
        fxaa: f.fxaa && f.scratch,
        bloom: f.bloom,
        reactive: f.taa,
        fog: !cloud_density && (f.fog || aerial || f.clouds),
        cloud_weather: f.clouds && f.cloud_weather_dirty,
        cloud_debug: f.clouds && cloud_density,
        cloud_lit: cloud_motion,
        cloud_shadow: f.clouds && f.cloud_shadows,
        froxel_fog: f.fog && f.volumetric_fog,
        aerial,
        grid: f.grid,
        overlay: f.overlay,
        wireframe_overlay: match f.view {
            FrameView::LitWireframe => true,
            _ => false,
        },
        motion_visualize: match f.view {
            FrameView::MotionVectors => true,
            _ => false,
        },
    }
}


/// The chains that follow one setting of their own arm exactly when it is on, whatever the
/// anti-aliasing mode, the view or any other chain: bloom when bloom is on, the depth prepass,
/// the light cull when a cluster dispatch is pending, skinning and morphing when the frame built
/// their dispatches, shadow rendering when pages need it, DDGI, the distance field, the grid and
/// the overlay; the froxel fog when the fog is volumetric, the reactive mask under TAA, and the
/// weather and shadow bakes when clouds are on and ask for them.
pub proof fn lemma_direct_chains_follow_their_settings(f: FrameFeatures)
    ensures
        ({
            let w = spec_frame_wants(f);
            &&& w.bloom == f.bloom
            &&& w.depth_prepass == f.depth_prepass
            &&& w.light_cull == f.cluster_dispatch_pending
            &&& w.skin == f.skin_dispatches
            &&& w.morph == f.morph_dispatches
            &&& w.shadow == f.shadow_pages
            &&& w.ddgi == f.ddgi
            &&& w.gdf == f.gdf
            &&& w.grid == f.grid
            &&& w.overlay == f.overlay
            &&& w.froxel_fog == (f.fog && f.volumetric_fog)
            &&& w.reactive == f.taa
            &&& w.cloud_weather == (f.clouds && f.cloud_weather_dirty)
            &&& w.cloud_shadow == (f.clouds && f.cloud_shadows)
        }),
{
}

/// Whether every setting on in `f` is on in `g`, in the same view mode.
pub open spec fn spec_features_within(f: FrameFeatures, g: FrameFeatures) -> bool {
    &&& f.view == g.view
    &&& (f.depth_prepass ==> g.depth_prepass) && (f.cluster_dispatch_pending ==> g.cluster_dispatch_pending)
    &&& (f.skin_dispatches ==> g.skin_dispatches) && (f.morph_dispatches ==> g.morph_dispatches)
    &&& (f.shadow_pages ==> g.shadow_pages) && (f.gbuffer_ready ==> g.gbuffer_ready)
    &&& (f.ssao ==> g.ssao) && (f.contact ==> g.contact) && (f.ssgi ==> g.ssgi) && (f.ssr ==> g.ssr)
    &&& (f.screen_effects_prepass ==> g.screen_effects_prepass) && (f.rt_reflections ==> g.rt_reflections)
    &&& (f.restir ==> g.restir) && (f.sky_occlusion ==> g.sky_occlusion) && (f.ddgi ==> g.ddgi)
    &&& (f.gdf ==> g.gdf) && (f.taa ==> g.taa) && (f.fxaa ==> g.fxaa)
    &&& (f.motion_targets ==> g.motion_targets) && (f.scratch ==> g.scratch) && (f.bloom ==> g.bloom)
    &&& (f.fog ==> g.fog) && (f.volumetric_fog ==> g.volumetric_fog)
    &&& (f.aerial_perspective ==> g.aerial_perspective) && (f.atmosphere_live ==> g.atmosphere_live)
    &&& (f.clouds ==> g.clouds) && (f.cloud_weather_dirty ==> g.cloud_weather_dirty)
    &&& (f.cloud_shadows ==> g.cloud_shadows) && (f.grid ==> g.grid) && (f.overlay ==> g.overlay)
}

/// Whether every chain armed in `a` is armed in `b`.
pub open spec fn spec_wants_within(a: FrameWants, b: FrameWants) -> bool {
    &&& (a.depth_prepass ==> b.depth_prepass) && (a.light_cull ==> b.light_cull) && (a.skin ==> b.skin)
    &&& (a.morph ==> b.morph) && (a.shadow ==> b.shadow) && (a.gbuffer ==> b.gbuffer) && (a.gtao ==> b.gtao)
    &&& (a.contact ==> b.contact) && (a.ssgi ==> b.ssgi) && (a.ssr ==> b.ssr) && (a.copy_color ==> b.copy_color)
    &&& (a.specocc ==> b.specocc) && (a.ddgi ==> b.ddgi) && (a.gdf ==> b.gdf) && (a.restir ==> b.restir)
    &&& (a.motion ==> b.motion) && (a.ssgi_accum ==> b.ssgi_accum) && (a.dfao ==> b.dfao) && (a.taa ==> b.taa)
    &&& (a.fxaa ==> b.fxaa) && (a.bloom ==> b.bloom) && (a.reactive ==> b.reactive) && (a.fog ==> b.fog)
    &&& (a.cloud_weather ==> b.cloud_weather) && (a.cloud_debug ==> b.cloud_debug) && (a.cloud_lit ==> b.cloud_lit)
    &&& (a.cloud_shadow ==> b.cloud_shadow) && (a.froxel_fog ==> b.froxel_fog) && (a.aerial ==> b.aerial)
    &&& (a.grid ==> b.grid) && (a.overlay ==> b.overlay) && (a.wireframe_overlay ==> b.wireframe_overlay)
    &&& (a.motion_visualize ==> b.motion_visualize)
}

/// Turning a setting on, or a readiness flag becoming true, never disarms a chain: in one view
/// mode, a frame with more settings on arms every chain a frame with fewer arms.
pub proof fn lemma_more_settings_never_disarm(f: FrameFeatures, g: FrameFeatures)
    requires
        spec_features_within(f, g),
    ensures
        spec_wants_within(spec_frame_wants(f), spec_frame_wants(g)),
{
}


/// A chain that serves a setting never runs with that setting off, and runs whenever the setting
/// is on and what it needs is there. The screen-space effects need the G-buffer to be ready and
/// ride its prepass; ReSTIR, ray-traced reflections and distance-field AO force that prepass;
/// the AA resolves need the scratch target; aerial perspective needs the baked atmosphere; the
/// cloud debug view and the lit cloud chain split by view mode; the view-mode overlays follow
/// their mode; the fog composite runs for fog, aerial perspective or clouds outside the cloud
/// debug view.
pub proof fn lemma_chains_follow_what_they_serve(f: FrameFeatures)
    ensures
        ({
            let w = spec_frame_wants(f);
            &&& w.gbuffer == (f.gbuffer_ready && (f.restir || f.rt_reflections || f.sky_occlusion)
                || f.screen_effects_prepass)
            &&& w.gtao == (w.gbuffer && f.gbuffer_ready && f.ssao)
            &&& w.contact == (w.gbuffer && f.gbuffer_ready && f.contact)
            &&& w.ssgi == (w.gbuffer && f.gbuffer_ready && f.ssgi)
            &&& w.ssr == (w.gbuffer && f.gbuffer_ready && f.ssr)
            &&& w.copy_color == (w.gbuffer && f.gbuffer_ready && (f.ssgi || f.ssr || f.rt_reflections))
            &&& w.restir == (f.restir && f.gbuffer_ready)
            &&& w.specocc == (f.gbuffer_ready && f.sky_occlusion)
            &&& (w.motion ==> f.motion_targets)
            &&& (f.motion_targets && (f.taa || (f.gbuffer_ready && (f.ssgi || f.sky_occlusion)) || (f.clouds && f.view
                != FrameView::CloudDensity)) ==> w.motion)
            &&& w.ssgi_accum == (f.gbuffer_ready && f.ssgi && f.motion_targets)
            &&& w.dfao == (f.gbuffer_ready && f.sky_occlusion && f.motion_targets)
            &&& w.taa == (f.taa && f.scratch)
            &&& w.fxaa == (f.fxaa && f.scratch)
            &&& w.aerial == (f.aerial_perspective && f.atmosphere_live)
            &&& w.cloud_debug == (f.clouds && f.view == FrameView::CloudDensity)
            &&& w.cloud_lit == (f.clouds && f.view != FrameView::CloudDensity)
            &&& w.wireframe_overlay == (f.view == FrameView::LitWireframe)
            &&& w.motion_visualize == (f.view == FrameView::MotionVectors)
            &&& w.fog == (f.view != FrameView::CloudDensity && (f.fog || (f.aerial_perspective && f.atmosphere_live)
                || f.clouds))
        }),
{
}

} // verus!

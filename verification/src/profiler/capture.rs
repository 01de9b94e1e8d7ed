//! The bounded capture state machine: the armed frame window, the accumulated lanes and spans,
//! and the finished [`ProfileCapture`] the control plane drains.
use vstd::prelude::*;
use super::MAX_FRAMES_IN_FLIGHT;
use super::cpu::{CpuProfiler, CpuSpan};
use super::gpu::{PipelineStats, ProfilerMode};

verus! {

/// The lane a [`ProfileSpan`] sits on in a merged capture.
#[derive(Clone, Copy, Debug, PartialEq, Eq, Structural)]
pub enum ProfileLane {
    /// The CPU render-thread timeline.
    Cpu,
    /// The GPU timeline (projected onto the CPU axis when correlated).
    Gpu,
}

/// The merged span record: a CPU pass span or a GPU scope. `parent_index` and `depth` decode
/// the tree, `lane` separates the two timelines.
pub struct ProfileSpan {
    /// The span name.
    pub name: String,
    /// Which timeline lane.
    pub lane: ProfileLane,
    /// Begin (ns).
    pub start_ns: u64,
    /// End (ns).
    pub end_ns: u64,
    /// The enclosing span index in this capture, or `-1` at top level.
    pub parent_index: i32,
    /// Nesting depth.
    pub depth: u32,
    /// Whether pipeline statistics are present.
    pub has_stats: bool,
    /// Pipeline statistics, when `has_stats`.
    pub stats: PipelineStats,
}

/// A span's contents.
pub struct ProfileSpanView {
    /// The span name.
    pub name: Seq<char>,
    /// Which timeline lane.
    pub lane: ProfileLane,
    /// Begin (ns).
    pub start_ns: u64,
    /// End (ns).
    pub end_ns: u64,
    /// The enclosing span index, or `-1`.
    pub parent_index: i32,
    /// Nesting depth.
    pub depth: u32,
    /// Whether pipeline statistics are present.
    pub has_stats: bool,
    /// Pipeline statistics.
    pub stats: PipelineStats,
}

impl View for ProfileSpan {
    type V = ProfileSpanView;

    open spec fn view(&self) -> ProfileSpanView {
        ProfileSpanView {
            name: self.name@,
            lane: self.lane,
            start_ns: self.start_ns,
            end_ns: self.end_ns,
            parent_index: self.parent_index,
            depth: self.depth,
            has_stats: self.has_stats,
            stats: self.stats,
        }
    }
}

/// The contents of a list of spans.
pub open spec fn spec_spans(spans: Seq<ProfileSpan>) -> Seq<ProfileSpanView> {
    spans.map_values(|s: ProfileSpan| s@)
}

/// One GPU scope's read-back as a capture takes it: name, frame position and nesting, and its
/// statistics.
pub struct PassSpan {
    /// The scope name.
    pub name: String,
    /// Begin (ns), frame-relative or on the host clock when correlated.
    pub start_ns: u64,
    /// End (ns).
    pub end_ns: u64,
    /// The enclosing scope's index in the frame's list, or `-1`.
    pub parent_index: i32,
    /// Nesting depth.
    pub depth: u32,
    /// Whether `stats` is populated.
    pub has_stats: bool,
    /// Pipeline statistics, when `has_stats`.
    pub stats: PipelineStats,
}

/// A GPU scope read-back's contents.
pub struct PassSpanView {
    /// The scope name.
    pub name: Seq<char>,
    /// Begin (ns).
    pub start_ns: u64,
    /// End (ns).
    pub end_ns: u64,
    /// The enclosing scope's index, or `-1`.
    pub parent_index: i32,
    /// Nesting depth.
    pub depth: u32,
    /// Whether `stats` is populated.
    pub has_stats: bool,
    /// Pipeline statistics.
    pub stats: PipelineStats,
}

impl View for PassSpan {
    type V = PassSpanView;

    open spec fn view(&self) -> PassSpanView {
        PassSpanView {
            name: self.name@,
            start_ns: self.start_ns,
            end_ns: self.end_ns,
            parent_index: self.parent_index,
            depth: self.depth,
            has_stats: self.has_stats,
            stats: self.stats,
        }
    }
}

/// The contents of a frame's GPU read-back.
pub open spec fn spec_pass_spans(spans: Seq<PassSpan>) -> Seq<PassSpanView> {
    spans.map_values(|s: PassSpan| s@)
}

/// Capture metadata: the honesty flags plus the device and clock facts a downloaded trace
/// needs to be read on its own. The single-precision figures are carried as their bit
/// patterns.
pub struct ProfileCaptureMeta {
    /// Whether GPU timings are software-rasterizer times.
    pub software_gpu: bool,
    /// Whether GPU spans were correlated onto the CPU clock.
    pub correlated: bool,
    /// The physical-device name.
    pub device_name: String,
    /// ns per timestamp tick, as `f32` bits.
    pub timestamp_period_bits: u32,
    /// The target FPS the capture was taken at, as `f32` bits.
    pub target_fps_bits: u32,
    /// The profiler mode the capture ran in.
    pub mode: ProfilerMode,
    /// The pass-name prefix filter (a view hint).
    pub filter: String,
    /// The number of frames recorded.
    pub frame_count: u32,
}

/// Capture metadata's contents.
pub struct ProfileCaptureMetaView {
    /// Software rasterizer.
    pub software_gpu: bool,
    /// Correlated onto the CPU clock.
    pub correlated: bool,
    /// The physical-device name.
    pub device_name: Seq<char>,
    /// ns per tick, `f32` bits.
    pub timestamp_period_bits: u32,
    /// Target FPS, `f32` bits.
    pub target_fps_bits: u32,
    /// The profiler mode.
    pub mode: ProfilerMode,
    /// The filter.
    pub filter: Seq<char>,
    /// Frames recorded.
    pub frame_count: u32,
}

impl View for ProfileCaptureMeta {
    type V = ProfileCaptureMetaView;

    open spec fn view(&self) -> ProfileCaptureMetaView {
        ProfileCaptureMetaView {
            software_gpu: self.software_gpu,
            correlated: self.correlated,
            device_name: self.device_name@,
            timestamp_period_bits: self.timestamp_period_bits,
            target_fps_bits: self.target_fps_bits,
            mode: self.mode,
            filter: self.filter@,
            frame_count: self.frame_count,
        }
    }
}

/// Empty metadata.
pub open spec fn spec_empty_meta() -> ProfileCaptureMetaView {
    ProfileCaptureMetaView {
        software_gpu: false,
        correlated: false,
        device_name: Seq::empty(),
        timestamp_period_bits: 0,
        target_fps_bits: 0,
        mode: ProfilerMode::Off,
        filter: Seq::empty(),
        frame_count: 0,
    }
}

impl Default for ProfileCaptureMeta {
    /// Empty metadata.
    fn default() -> (r: Self)
        ensures
            r@ == spec_empty_meta(),
    {
        ProfileCaptureMeta {
            software_gpu: false,
            correlated: false,
            device_name: String::new(),
            timestamp_period_bits: 0,
            target_fps_bits: 0,
            mode: ProfilerMode::Off,
            filter: String::new(),
            frame_count: 0,
        }
    }
}

/// A bounded profiler capture: the merged spans plus the metadata.
pub struct ProfileCapture {
    /// The merged CPU and GPU spans across all recorded frames.
    pub spans: Vec<ProfileSpan>,
    /// The capture metadata.
    pub meta: ProfileCaptureMeta,
}

/// A capture's contents.
pub struct ProfileCaptureView {
    /// The spans.
    pub spans: Seq<ProfileSpanView>,
    /// The metadata.
    pub meta: ProfileCaptureMetaView,
}

impl View for ProfileCapture {
    type V = ProfileCaptureView;

    open spec fn view(&self) -> ProfileCaptureView {
        ProfileCaptureView { spans: spec_spans(self.spans@), meta: self.meta@ }
    }
}

/// An empty capture.
pub open spec fn spec_empty_capture() -> ProfileCaptureView {
    ProfileCaptureView { spans: Seq::empty(), meta: spec_empty_meta() }
}

impl Default for ProfileCapture {
    /// An empty capture.
    fn default() -> (r: Self)
        ensures
            r@ == spec_empty_capture(),
    {
        let r = ProfileCapture { spans: Vec::new(), meta: ProfileCaptureMeta::default() };
        assert(spec_spans(r.spans@) =~= Seq::<ProfileSpanView>::empty());
        r
    }
}

impl ProfileCapture {
    /// A copy of the capture.
    pub fn copy(&self) -> (r: Self)
        ensures
            r@ == self@,
    {
        let mut spans: Vec<ProfileSpan> = Vec::new();
        let mut i: usize = 0;
        while i < self.spans.len()
            invariant
                i <= self.spans@.len(),
                spec_spans(spans@) == spec_spans(self.spans@).take(i as int),
            decreases self.spans.len() - i,
        {
            let s = &self.spans[i];
            let ghost before = spec_spans(spans@);
            spans.push(
                ProfileSpan {
                    name: s.name.clone(),
                    lane: s.lane,
                    start_ns: s.start_ns,
                    end_ns: s.end_ns,
                    parent_index: s.parent_index,
                    depth: s.depth,
                    has_stats: s.has_stats,
                    stats: s.stats,
                },
            );
            assert(spec_spans(spans@) =~= before.push(self.spans@[i as int]@));
            assert(spec_spans(self.spans@).take(i as int + 1) =~= spec_spans(self.spans@).take(i as int).push(
                self.spans@[i as int]@,
            ));
            i = i + 1;
        }
        assert(spec_spans(self.spans@).take(self.spans@.len() as int) =~= spec_spans(self.spans@));
        let meta = ProfileCaptureMeta {
            software_gpu: self.meta.software_gpu,
            correlated: self.meta.correlated,
            device_name: self.meta.device_name.clone(),
            timestamp_period_bits: self.meta.timestamp_period_bits,
            target_fps_bits: self.meta.target_fps_bits,
            mode: self.meta.mode,
            filter: self.meta.filter.clone(),
            frame_count: self.meta.frame_count,
        };
        ProfileCapture { spans, meta }
    }
}

/// Bounded capture: a single frame, a fixed N-frame window, or rolling.
#[derive(Clone, Copy, Debug, PartialEq, Eq, Structural)]
pub enum CaptureMode {
    /// One frame (the default snapshot).
    Single,
    /// A fixed N-frame window.
    Frames,
    /// A recent rolling window (recorded forward like `Frames`).
    Rolling,
}

/// Hard cap on a capture's frame count so the span buffer cannot exhaust memory.
pub const MAX_CAPTURE_FRAMES: u32 = 256;

/// The capture state machine. `Arming` warms up for the GPU read-back delay so every recorded
/// frame reflects the arm-time settings; `Recording` copies each finalized frame's merged
/// spans; `Ready` holds the result until drained.
#[derive(Clone, Copy, Debug, PartialEq, Eq, Structural)]
pub enum CaptureState {
    /// Not capturing.
    Idle,
    /// Warming up to flush the read-back delay.
    Arming,
    /// Copying finalized frames.
    Recording,
    /// The capture is complete, awaiting drain.
    Ready,
}

/// The profiler settings a capture saves on start and restores on stop.
#[derive(Clone, Copy, Debug, PartialEq, Eq, Structural)]
pub struct ProfilerSettings {
    /// The profiler's mode.
    pub mode: ProfilerMode,
    /// Whether pass interiors are timed as nested sub-scopes.
    pub sub_scopes: bool,
    /// Whether the device supports pipeline-statistics queries.
    pub pipeline_stats_supported: bool,
}

/// What stopping a capture does to the profiler: the mode to switch back to (when it differs)
/// and the sub-scope flag to restore.
#[derive(Clone, Copy, Debug, PartialEq, Eq, Structural)]
pub struct ProfilerRestore {
    /// The mode to switch back to, when it differs from the current one.
    pub mode: Option<ProfilerMode>,
    /// The sub-scope flag to restore.
    pub sub_scopes: bool,
}

/// The profiler's mode and sub-scope flag after `restore` is applied to `now`.
pub open spec fn spec_restored(now: ProfilerSettings, restore: ProfilerRestore) -> (ProfilerMode, bool) {
    (
        match restore.mode {
            Some(m) => m,
            None => now.mode,
        },
        restore.sub_scopes,
    )
}

/// How stopping a recorder restores the profiler standing at `now`: nothing for a drained
/// recorder; otherwise the settings saved at start, the mode only when it differs from `now`'s.
pub open spec fn spec_stop_restore(r: CaptureRecorderView, now: ProfilerSettings) -> Option<ProfilerRestore> {
    if r.state == CaptureState::Idle {
        None
    } else {
        Some(
            ProfilerRestore {
                mode: if r.prior_mode != now.mode { Some(r.prior_mode) } else { None },
                sub_scopes: r.prior_sub_scopes,
            },
        )
    }
}

/// The capture recorder driven by the control plane's capture start and stop.
pub struct CaptureRecorder {
    /// The current state.
    pub state: CaptureState,
    /// The capture mode.
    pub mode: CaptureMode,
    /// Frames to record before going `Ready`.
    pub target_frames: u32,
    /// Frames copied so far.
    pub captured_frames: u32,
    /// `Arming` frames left (covers the read-back delay).
    pub warmup: u32,
    /// Pass-name prefix carried into metadata (a view hint).
    pub filter: String,
    /// Whether to include the CPU lane.
    pub include_cpu: bool,
    /// Whether pipeline statistics were requested (and are supported).
    pub include_stats: bool,
    /// The profiler mode restored on stop.
    pub prior_mode: ProfilerMode,
    /// The sub-scope flag restored on stop.
    pub prior_sub_scopes: bool,
    /// Id of the in-flight or last capture.
    pub capture_id: u32,
    /// The id the next capture takes.
    pub next_capture_id: u32,
    /// The capture accumulating while `Recording`.
    pub capture: ProfileCapture,
    /// The last completed (non-empty) drain, echoed by a redundant stop.
    pub last_capture: ProfileCapture,
}

/// A capture recorder's contents.
pub struct CaptureRecorderView {
    /// The state.
    pub state: CaptureState,
    /// The mode.
    pub mode: CaptureMode,
    /// Frames to record.
    pub target_frames: u32,
    /// Frames copied so far.
    pub captured_frames: u32,
    /// Warm-up frames left.
    pub warmup: u32,
    /// The filter.
    pub filter: Seq<char>,
    /// Whether the CPU lane is included.
    pub include_cpu: bool,
    /// Whether statistics are included.
    pub include_stats: bool,
    /// The profiler mode to restore.
    pub prior_mode: ProfilerMode,
    /// The sub-scope flag to restore.
    pub prior_sub_scopes: bool,
    /// The capture id.
    pub capture_id: u32,
    /// The next capture id.
    pub next_capture_id: u32,
    /// The accumulating capture.
    pub capture: ProfileCaptureView,
    /// The last completed drain.
    pub last_capture: ProfileCaptureView,
}

impl View for CaptureRecorder {
    type V = CaptureRecorderView;

    open spec fn view(&self) -> CaptureRecorderView {
        CaptureRecorderView {
            state: self.state,
            mode: self.mode,
            target_frames: self.target_frames,
            captured_frames: self.captured_frames,
            warmup: self.warmup,
            filter: self.filter@,
            include_cpu: self.include_cpu,
            include_stats: self.include_stats,
            prior_mode: self.prior_mode,
            prior_sub_scopes: self.prior_sub_scopes,
            capture_id: self.capture_id,
            next_capture_id: self.next_capture_id,
            capture: self.capture@,
            last_capture: self.last_capture@,
        }
    }
}

/// A frame's CPU spans as capture spans, their parents rebased by `base`.
pub open spec fn spec_cpu_frame(names: Seq<Seq<char>>, spans: Seq<CpuSpan>, base: int) -> Seq<ProfileSpanView> {
    Seq::new(
        spans.len(),
        |i: int|
            ProfileSpanView {
                name: names[spans[i].marker as int],
                lane: ProfileLane::Cpu,
                start_ns: spans[i].start_ns,
                end_ns: spans[i].end_ns,
                parent_index: if spans[i].parent >= 0 { (base + spans[i].parent) as i32 } else { -1i32 },
                depth: spans[i].depth,
                has_stats: false,
                stats: PipelineStats {
                    input_vertices: 0,
                    vertex_invocations: 0,
                    clipping_invocations: 0,
                    clipping_primitives: 0,
                    fragment_invocations: 0,
                    compute_invocations: 0,
                    pixels: 0,
                },
            },
    )
}

/// A frame's GPU scopes as capture spans, their parents rebased by `base`.
pub open spec fn spec_gpu_frame(timings: Seq<PassSpanView>, base: int) -> Seq<ProfileSpanView> {
    Seq::new(
        timings.len(),
        |i: int|
            ProfileSpanView {
                name: timings[i].name,
                lane: ProfileLane::Gpu,
                start_ns: timings[i].start_ns,
                end_ns: timings[i].end_ns,
                parent_index: if timings[i].parent_index >= 0 { (base + timings[i].parent_index) as i32 } else { -1i32 },
                depth: timings[i].depth,
                has_stats: timings[i].has_stats,
                stats: timings[i].stats,
            },
    )
}

/// Every parent a frame names, rebased into a capture of `len` spans, is an `i32`.
pub open spec fn spec_parents_fit(len: int, include_cpu: bool, cpu: Seq<CpuSpan>, gpu: Seq<PassSpanView>) -> bool {
    let gpu_base = len + if include_cpu { cpu.len() as int } else { 0 };
    &&& forall|i: int| 0 <= i < cpu.len() && (#[trigger] cpu[i]).parent >= 0 ==> len + cpu[i].parent <= i32::MAX
    &&& forall|i: int| 0 <= i < gpu.len() && (#[trigger] gpu[i]).parent_index >= 0 ==> gpu_base + gpu[i].parent_index <= i32::MAX
}

/// The capture spans after appending one frame: its CPU spans (when the CPU lane is included)
/// then its GPU scopes, each lane's parents rebased into the capture's index space.
pub open spec fn spec_append_frame(
    spans: Seq<ProfileSpanView>,
    include_cpu: bool,
    names: Seq<Seq<char>>,
    cpu: Seq<CpuSpan>,
    gpu: Seq<PassSpanView>,
) -> Seq<ProfileSpanView> {
    let cpu_part = if include_cpu { spec_cpu_frame(names, cpu, spans.len() as int) } else { Seq::empty() };
    spans + cpu_part + spec_gpu_frame(gpu, (spans.len() + cpu_part.len()) as int)
}

/// The recorder after one finalized frame: `Arming` burns down its warm-up and starts
/// `Recording` when it is spent; `Recording` appends the frame and goes `Ready` once the target
/// is reached; otherwise nothing changes.
pub open spec fn spec_tick(
    r: CaptureRecorderView,
    names: Seq<Seq<char>>,
    cpu: Seq<CpuSpan>,
    gpu: Seq<PassSpanView>,
) -> CaptureRecorderView {
    match r.state {
        CaptureState::Arming => {
            let warmup = if r.warmup == 0 { 0 } else { (r.warmup - 1) as u32 };
            CaptureRecorderView {
                warmup,
                state: if warmup == 0 { CaptureState::Recording } else { CaptureState::Arming },
                ..r
            }
        },
        CaptureState::Recording => {
            let captured = (r.captured_frames + 1) as u32;
            CaptureRecorderView {
                capture: ProfileCaptureView {
                    spans: spec_append_frame(r.capture.spans, r.include_cpu, names, cpu, gpu),
                    ..r.capture
                },
                captured_frames: captured,
                state: if captured >= r.target_frames { CaptureState::Ready } else { CaptureState::Recording },
                ..r
            }
        },
        _ => r,
    }
}

/// Draining a recorder: an `Idle` one echoes its last completed capture and stays as it is;
/// otherwise the accumulated spans leave with `meta` stamped with the frame count, the recorder
/// returns to `Idle` with nothing accumulated, and a drain that recorded frames becomes the
/// capture a later redundant drain echoes.
pub open spec fn spec_finish(r: CaptureRecorderView, meta: ProfileCaptureMetaView) -> (CaptureRecorderView, ProfileCaptureView) {
    if r.state == CaptureState::Idle {
        (r, r.last_capture)
    } else {
        let out = ProfileCaptureView {
            spans: r.capture.spans,
            meta: ProfileCaptureMetaView { frame_count: r.captured_frames, ..meta },
        };
        (
            CaptureRecorderView {
                capture: spec_empty_capture(),
                captured_frames: 0,
                state: CaptureState::Idle,
                last_capture: if r.captured_frames > 0 { out } else { r.last_capture },
                ..r
            },
            out,
        )
    }
}

/// A redundant drain (the double stop of an overlapping control poll) returns the capture the
/// real drain returned, never an empty one, and changes nothing.
pub proof fn lemma_redundant_finish_echoes(
    r: CaptureRecorderView,
    first: ProfileCaptureMetaView,
    second: ProfileCaptureMetaView,
)
    requires
        r.state != CaptureState::Idle,
        r.captured_frames > 0,
    ensures
        ({
            let (r1, c1) = spec_finish(r, first);
            let (r2, c2) = spec_finish(r1, second);
            &&& c2 == c1
            &&& r2 == r1
        }),
{
}

impl Default for CaptureRecorder {
    /// An idle recorder: a single-frame capture with the CPU lane, ids starting at 1.
    fn default() -> (r: Self)
        ensures
            r@.state == CaptureState::Idle,
            r@.mode == CaptureMode::Single,
            r@.target_frames == 1,
            r@.captured_frames == 0,
            r@.warmup == 0,
            r@.filter == Seq::<char>::empty(),
            r@.include_cpu,
            !r@.include_stats,
            r@.prior_mode == ProfilerMode::Off,
            !r@.prior_sub_scopes,
            r@.capture_id == 0,
            r@.next_capture_id == 1,
            r@.capture == spec_empty_capture(),
            r@.last_capture == spec_empty_capture(),
    {
        CaptureRecorder {
            state: CaptureState::Idle,
            mode: CaptureMode::Single,
            target_frames: 1,
            captured_frames: 0,
            warmup: 0,
            filter: String::new(),
            include_cpu: true,
            include_stats: false,
            prior_mode: ProfilerMode::Off,
            prior_sub_scopes: false,
            capture_id: 0,
            next_capture_id: 1,
            capture: ProfileCapture::default(),
            last_capture: ProfileCapture::default(),
        }
    }
}

impl CaptureRecorder {
    /// Starts a capture: a single frame, or `frames` clamped to `1..=MAX_CAPTURE_FRAMES`; a
    /// warm-up covering the read-back delay; statistics only when wanted and supported. Saves
    /// the profiler's settings for the stop and returns the new capture id with the mode the
    /// profiler must switch to (pipeline statistics or plain timestamps), when it differs from
    /// the current one. The profiler times nested sub-scopes while the capture runs.
    pub fn start(
        &mut self,
        mode: CaptureMode,
        frames: u32,
        filter: String,
        include_cpu: bool,
        include_stats: bool,
        profiler: &mut ProfilerSettings,
    ) -> (r: (u32, Option<ProfilerMode>))
        requires
            old(self).next_capture_id < u32::MAX,
        ensures
            final(self).state == CaptureState::Arming,
            final(self).mode == mode,
            final(self).target_frames == (if mode == CaptureMode::Single {
                1
            } else if frames < 1 {
                1
            } else if frames > MAX_CAPTURE_FRAMES {
                MAX_CAPTURE_FRAMES
            } else {
                frames
            }),
            final(self).captured_frames == 0,
            final(self).warmup == MAX_FRAMES_IN_FLIGHT + 1,
            final(self).filter@ == filter@,
            final(self).include_cpu == include_cpu,
            final(self).include_stats == (include_stats && old(profiler).pipeline_stats_supported),
            final(self)@.capture == spec_empty_capture(),
            final(self).capture_id == old(self).next_capture_id,
            final(self).next_capture_id == old(self).next_capture_id + 1,
            final(self).prior_mode == old(profiler).mode,
            final(self).prior_sub_scopes == old(profiler).sub_scopes,
            final(self)@.last_capture == old(self)@.last_capture,
            r.0 == old(self).next_capture_id,
            *final(profiler) == (ProfilerSettings { sub_scopes: true, ..*old(profiler) }),
            ({
                let wanted = if include_stats && old(profiler).pipeline_stats_supported {
                    ProfilerMode::PipelineStats
                } else {
                    ProfilerMode::Timestamps
                };
                r.1 == (if old(profiler).mode != wanted { Some(wanted) } else { None })
            }),
    {
        self.mode = mode;
        self.target_frames = if mode == CaptureMode::Single {
            1
        } else if frames < 1 {
            1
        } else if frames > MAX_CAPTURE_FRAMES {
            MAX_CAPTURE_FRAMES
        } else {
            frames
        };
        self.captured_frames = 0;
        self.warmup = (MAX_FRAMES_IN_FLIGHT + 1) as u32;
        self.filter = filter;
        self.include_cpu = include_cpu;
        self.include_stats = include_stats && profiler.pipeline_stats_supported;
        self.capture = ProfileCapture::default();
        self.capture_id = self.next_capture_id;
        self.next_capture_id = self.next_capture_id + 1;
        self.prior_mode = profiler.mode;
        self.prior_sub_scopes = profiler.sub_scopes;
        let wanted = if self.include_stats {
            ProfilerMode::PipelineStats
        } else {
            ProfilerMode::Timestamps
        };
        profiler.sub_scopes = true;
        self.state = CaptureState::Arming;
        let switch = if profiler.mode != wanted {
            Some(wanted)
        } else {
            None
        };
        (self.capture_id, switch)
    }

    /// Advances the state machine once per finalized frame (at the read-back seam), appending
    /// the merged CPU and GPU spans of each `Recording` frame: the CPU spans of buffer
    /// `cpu_slot` and the GPU scopes `gpu` of the profiler's last read-back.
    pub fn tick(&mut self, cpu: &CpuProfiler, cpu_slot: usize, gpu: &[PassSpan])
        requires
            cpu_slot < MAX_FRAMES_IN_FLIGHT,
            old(self).state == CaptureState::Recording ==> {
                &&& old(self).captured_frames < u32::MAX
                &&& old(self).capture.spans@.len() + cpu.buffers@[cpu_slot as int].spans@.len() + gpu@.len() <= i32::MAX
                &&& forall|i: int| 0 <= i < cpu.buffers@[cpu_slot as int].spans@.len()
                    ==> (#[trigger] cpu.buffers@[cpu_slot as int].spans@[i]).marker < cpu.registry@.len()
                &&& spec_parents_fit(old(self)@.capture.spans.len() as int, old(self).include_cpu, cpu.buffers@[cpu_slot as int].spans@, spec_pass_spans(gpu@))
            },
        ensures
            final(self)@ == spec_tick(old(self)@, cpu.registry@, cpu.buffers@[cpu_slot as int].spans@, spec_pass_spans(gpu@)),
    {
        match self.state {
            CaptureState::Arming => {
                self.warmup = self.warmup.saturating_sub(1);
                if self.warmup == 0 {
                    self.state = CaptureState::Recording;
                }
            },
            CaptureState::Recording => {
                self.append_frame(cpu, cpu_slot, gpu);
                self.captured_frames = self.captured_frames + 1;
                if self.captured_frames >= self.target_frames {
                    self.state = CaptureState::Ready;
                }
            },
            _ => {},
        }
    }

    /// Appends one frame's CPU spans (when enabled) then GPU scopes, rebasing each span's
    /// `parent_index` into the growing capture's index space.
    pub fn append_frame(&mut self, cpu: &CpuProfiler, cpu_slot: usize, gpu: &[PassSpan])
        requires
            cpu_slot < MAX_FRAMES_IN_FLIGHT,
            old(self).capture.spans@.len() + cpu.buffers@[cpu_slot as int].spans@.len() + gpu@.len() <= i32::MAX,
            forall|i: int| 0 <= i < cpu.buffers@[cpu_slot as int].spans@.len()
                ==> (#[trigger] cpu.buffers@[cpu_slot as int].spans@[i]).marker < cpu.registry@.len(),
            spec_parents_fit(old(self)@.capture.spans.len() as int, old(self).include_cpu, cpu.buffers@[cpu_slot as int].spans@, spec_pass_spans(gpu@)),
        ensures
            final(self)@ == (CaptureRecorderView {
                capture: ProfileCaptureView {
                    spans: spec_append_frame(
                        old(self)@.capture.spans,
                        old(self).include_cpu,
                        cpu.registry@,
                        cpu.buffers@[cpu_slot as int].spans@,
                        spec_pass_spans(gpu@),
                    ),
                    ..old(self)@.capture
                },
                ..old(self)@
            }),
    {
        let mut spans: Vec<ProfileSpan> = Vec::new();
        std::mem::swap(&mut spans, &mut self.capture.spans);
        let ghost start = spec_spans(spans@);
        let ghost names = cpu.registry@;
        let ghost cpu_spans = cpu.buffers@[cpu_slot as int].spans@;
        let base = spans.len();
        let include_cpu = self.include_cpu;
        let buffer = &cpu.buffers[cpu_slot];
        let mut cpu_count: usize = 0;
        if include_cpu {
            while cpu_count < buffer.spans.len()
                invariant
                    cpu_count <= buffer.spans@.len(),
                    buffer.spans@ == cpu_spans,
                    names == cpu.registry@,
                    base == start.len(),
                    base + cpu_spans.len() <= i32::MAX,
                    forall|i: int| 0 <= i < cpu_spans.len() ==> (#[trigger] cpu_spans[i]).marker < names.len(),
                    forall|i: int| 0 <= i < cpu_spans.len() && (#[trigger] cpu_spans[i]).parent >= 0 ==> base + cpu_spans[i].parent <= i32::MAX,
                    spec_spans(spans@) == start + spec_cpu_frame(names, cpu_spans, base as int).take(cpu_count as int),
                decreases buffer.spans.len() - cpu_count,
            {
                let s = buffer.spans[cpu_count];
                assert(s == cpu_spans[cpu_count as int]);
                let ghost before = spec_spans(spans@);
                let parent_index = if s.parent >= 0 {
                    base as i32 + s.parent
                } else {
                    -1
                };
                let name = cpu.registry.name(s.marker);
                spans.push(
                    ProfileSpan {
                        name: String::from_str(name),
                        lane: ProfileLane::Cpu,
                        start_ns: s.start_ns,
                        end_ns: s.end_ns,
                        parent_index,
                        depth: s.depth,
                        has_stats: false,
                        stats: PipelineStats::default(),
                    },
                );
                proof {
                    let frame = spec_cpu_frame(names, cpu_spans, base as int);
                    assert(frame[cpu_count as int].name == names[s.marker as int]);
                    assert(spec_spans(spans@) =~= before.push(frame[cpu_count as int]));
                    assert(frame.take(cpu_count as int + 1) =~= frame.take(cpu_count as int).push(frame[cpu_count as int]));
                }
                cpu_count = cpu_count + 1;
            }
            proof {
                let frame = spec_cpu_frame(names, cpu_spans, base as int);
                assert(frame.take(cpu_count as int) =~= frame);
            }
        } else {
            assert(start + Seq::<ProfileSpanView>::empty() =~= start);
        }
        let ghost mid = spec_spans(spans@);
        assert(cpu_count == if include_cpu { cpu_spans.len() as int } else { 0 });
        let gpu_base = base + cpu_count;
        let ghost gpu_views = spec_pass_spans(gpu@);
        let mut i: usize = 0;
        while i < gpu.len()
            invariant
                i <= gpu@.len(),
                gpu_views == spec_pass_spans(gpu@),
                gpu_base == mid.len(),
                gpu_base + gpu@.len() <= i32::MAX,
                gpu_base == start.len() + if include_cpu { cpu_spans.len() as int } else { 0 },
                forall|k: int| 0 <= k < gpu_views.len() && (#[trigger] gpu_views[k]).parent_index >= 0 ==> gpu_base + gpu_views[k].parent_index <= i32::MAX,
                spec_spans(spans@) == mid + spec_gpu_frame(gpu_views, gpu_base as int).take(i as int),
            decreases gpu.len() - i,
        {
            let t = &gpu[i];
            assert(gpu_views[i as int] == t@);
            let ghost before = spec_spans(spans@);
            let parent_index = if t.parent_index >= 0 {
                gpu_base as i32 + t.parent_index
            } else {
                -1
            };
            spans.push(
                ProfileSpan {
                    name: t.name.clone(),
                    lane: ProfileLane::Gpu,
                    start_ns: t.start_ns,
                    end_ns: t.end_ns,
                    parent_index,
                    depth: t.depth,
                    has_stats: t.has_stats,
                    stats: t.stats,
                },
            );
            proof {
                let frame = spec_gpu_frame(gpu_views, gpu_base as int);
                assert(spec_spans(spans@) =~= before.push(frame[i as int]));
                assert(frame.take(i as int + 1) =~= frame.take(i as int).push(frame[i as int]));
            }
            i = i + 1;
        }
        proof {
            let frame = spec_gpu_frame(gpu_views, gpu_base as int);
            assert(frame.take(i as int) =~= frame);
            let cpu_part = if include_cpu { spec_cpu_frame(names, cpu_spans, start.len() as int) } else { Seq::empty() };
            assert(mid =~= start + cpu_part);
            assert(spec_spans(spans@) =~= spec_append_frame(start, include_cpu, names, cpu_spans, gpu_views));
        }
        self.capture.spans = spans;
    }

    /// Drains the accumulated capture, stamping `meta` with the frame count, resetting the
    /// recorder to `Idle` and remembering a drain that recorded frames. A drain of an `Idle`
    /// recorder echoes the last completed capture rather than an empty one.
    pub fn finish(&mut self, meta: ProfileCaptureMeta) -> (r: ProfileCapture)
        ensures
            (final(self)@, r@) == spec_finish(old(self)@, meta@),
    {
        if self.state == CaptureState::Idle {
            return self.last_capture.copy();
        }
        let mut spans: Vec<ProfileSpan> = Vec::new();
        std::mem::swap(&mut spans, &mut self.capture.spans);
        let mut meta = meta;
        meta.frame_count = self.captured_frames;
        let out = ProfileCapture { spans, meta };
        self.capture = ProfileCapture::default();
        let captured = self.captured_frames;
        self.captured_frames = 0;
        self.state = CaptureState::Idle;
        if captured > 0 {
            self.last_capture = out.copy();
        }
        out
    }

    /// Stops the capture: drains it with metadata describing the capture (whether GPU spans
    /// were correlated, the tick period, and the mode the profiler ran in, all as the profiler
    /// stands now), and returns with it how to restore the profiler's settings saved at start.
    /// A stop of an already drained recorder echoes the last completed capture and leaves the
    /// profiler alone.
    pub fn stop(
        &mut self,
        profiler: ProfilerSettings,
        correlated: bool,
        timestamp_period_bits: u32,
        software_gpu: bool,
        device_name: String,
        target_fps_bits: u32,
    ) -> (r: (ProfileCapture, Option<ProfilerRestore>))
        ensures
            r.1 == spec_stop_restore(old(self)@, profiler),
            old(self).state != CaptureState::Idle ==> spec_restored(profiler, r.1.unwrap()) == (
                old(self).prior_mode,
                old(self).prior_sub_scopes,
            ),
            (final(self)@, r.0@) == spec_finish(
                old(self)@,
                ProfileCaptureMetaView {
                    software_gpu,
                    correlated,
                    device_name: device_name@,
                    timestamp_period_bits,
                    target_fps_bits,
                    mode: profiler.mode,
                    filter: old(self).filter@,
                    frame_count: 0,
                },
            ),
    {
        if self.state == CaptureState::Idle {
            return (self.last_capture.copy(), None);
        }
        let restore = ProfilerRestore {
            mode: if self.prior_mode != profiler.mode {
                Some(self.prior_mode)
            } else {
                None
            },
            sub_scopes: self.prior_sub_scopes,
        };
        let meta = ProfileCaptureMeta {
            software_gpu,
            correlated,
            device_name,
            timestamp_period_bits,
            target_fps_bits,
            mode: profiler.mode,
            filter: self.filter.clone(),
            frame_count: 0,
        };
        (self.finish(meta), Some(restore))
    }
}

/// The nanosecond count of a `(seconds, nanoseconds)` clock reading, with the wrapping of
/// unsigned machine arithmetic: `seconds * 10^9 + nanoseconds`, both taken as `u64`.
pub open spec fn spec_timespec_ns(sec: i64, nsec: i64) -> u64 {
    vstd::wrapping::u64_specs::wrapping_add(
        vstd::wrapping::u64_specs::wrapping_mul(sec as u64, 1_000_000_000),
        nsec as u64,
    )
}

/// The nanosecond count of a `(seconds, nanoseconds)` clock reading; exact for every reading
/// whose count fits a `u64`.
pub fn timespec_ns(sec: i64, nsec: i64) -> (r: u64)
    ensures
        r == spec_timespec_ns(sec, nsec),
        0 <= sec && 0 <= nsec && sec * 1_000_000_000 + nsec <= u64::MAX ==> r == sec
            * 1_000_000_000 + nsec,
{
    let r = (sec as u64).wrapping_mul(1_000_000_000).wrapping_add(nsec as u64);
    proof {
        if 0 <= sec && 0 <= nsec && sec * 1_000_000_000 + nsec <= u64::MAX {
            let m = (sec as u64) as nat * 1_000_000_000nat;
            assert(m < 0x1_0000_0000_0000_0000) by (nonlinear_arith)
                requires
                    m == (sec as u64) as nat * 1_000_000_000nat,
                    (sec as u64) as int == sec,
                    sec * 1_000_000_000 + nsec <= u64::MAX,
                    0 <= nsec,
            ;
            assert(m % 0x1_0000_0000_0000_0000nat == m) by (nonlinear_arith)
                requires
                    m < 0x1_0000_0000_0000_0000,
            ;
        }
    }
    r
}

/// Reads `CLOCK_MONOTONIC` through `rustix::time::clock_gettime` as `(seconds, nanoseconds)`.
/// It claims only what rustix documents of a `Timespec`: the nanoseconds are less than one
/// second. The reading itself is the time of the call and is left unstated.
#[verifier::external_body]
fn read_monotonic_clock() -> (t: (i64, i64))
    ensures
        t.1 < 1_000_000_000,
{
    let ts = rustix::time::clock_gettime(rustix::time::ClockId::Monotonic);
    (ts.tv_sec, ts.tv_nsec as i64)
}

/// Raw `CLOCK_MONOTONIC` nanoseconds: the axis the GPU calibration projects device ticks onto,
/// so a correlated capture places CPU and GPU spans on one timeline. Whatever the clock reads,
/// the result is that reading's nanosecond count.
pub fn cpu_now_ns() -> (r: u64)
    ensures
        exists|sec: i64, nsec: i64| nsec < 1_000_000_000 && r == spec_timespec_ns(sec, nsec),
{
    let (sec, nsec) = read_monotonic_clock();
    timespec_ns(sec, nsec)
}

/// One recorded frame's inputs to [`CaptureRecorder::tick`]: the marker names, the CPU spans
/// and the GPU spans.
pub type CaptureFrameInputs = (Seq<Seq<char>>, Seq<CpuSpan>, Seq<PassSpanView>);

/// A recorder after ticking through `frames` in order.
pub open spec fn spec_ticks(r: CaptureRecorderView, frames: Seq<CaptureFrameInputs>) -> CaptureRecorderView
    decreases frames.len(),
{
    if frames.len() == 0 {
        r
    } else {
        let f = frames.last();
        spec_tick(spec_ticks(r, frames.drop_last()), f.0, f.1, f.2)
    }
}

/// A capture leaves the profiler as it found it: once a start has saved the profiler's mode
/// and sub-scope flag, however many frames are recorded, stopping at whatever settings the
/// profiler then stands at restores the saved mode and flag.
pub proof fn lemma_capture_restores_profiler(
    started: CaptureRecorderView,
    frames: Seq<CaptureFrameInputs>,
    now: ProfilerSettings,
)
    requires
        started.state == CaptureState::Arming,
    ensures
        ({
            let restore = spec_stop_restore(spec_ticks(started, frames), now);
            &&& restore is Some
            &&& spec_restored(now, restore.unwrap()) == (started.prior_mode, started.prior_sub_scopes)
        }),
{
    lemma_ticks_keep_saved(started, frames);
}

/// Ticking never drains a recorder and never touches the settings saved at start.
proof fn lemma_ticks_keep_saved(r: CaptureRecorderView, frames: Seq<CaptureFrameInputs>)
    requires
        r.state != CaptureState::Idle,
    ensures
        spec_ticks(r, frames).state != CaptureState::Idle,
        spec_ticks(r, frames).prior_mode == r.prior_mode,
        spec_ticks(r, frames).prior_sub_scopes == r.prior_sub_scopes,
    decreases frames.len(),
{
    if frames.len() > 0 {
        lemma_ticks_keep_saved(r, frames.drop_last());
    }
}


/// What one finalized frame adds to a capture. The spans already captured stay as they were.
/// With the CPU lane included, each CPU span of the frame follows, in order, as a CPU-lane span
/// named by its marker, with its own begin and end times and depth, its parent moved past the
/// spans already captured (a top-level span stays top level), and no statistics. Then each GPU
/// scope follows, in order, as a GPU-lane span with its own name, times, depth and statistics,
/// its parent moved past everything before it in the capture. Without the CPU lane only the GPU
/// scopes are added.
pub proof fn lemma_appended_frame_keeps_every_span(
    spans: Seq<ProfileSpanView>,
    include_cpu: bool,
    names: Seq<Seq<char>>,
    cpu: Seq<CpuSpan>,
    gpu: Seq<PassSpanView>,
)
    requires
        spec_parents_fit(spans.len() as int, include_cpu, cpu, gpu),
    ensures
        ({
            let out = spec_append_frame(spans, include_cpu, names, cpu, gpu);
            let n = spans.len() as int;
            let c = if include_cpu { cpu.len() as int } else { 0int };
            &&& out.len() == n + c + gpu.len()
            &&& forall|k: int| 0 <= k < n ==> #[trigger] out[k] == spans[k]
            &&& include_cpu ==> forall|i: int| #![trigger cpu[i]] 0 <= i < cpu.len() ==> {
                let s = out[n + i];
                &&& s.lane == ProfileLane::Cpu
                &&& s.name == names[cpu[i].marker as int]
                &&& s.start_ns == cpu[i].start_ns
                &&& s.end_ns == cpu[i].end_ns
                &&& s.depth == cpu[i].depth
                &&& (cpu[i].parent < 0 ==> s.parent_index == -1)
                &&& (cpu[i].parent >= 0 ==> s.parent_index as int == n + cpu[i].parent)
                &&& !s.has_stats
            }
            &&& forall|j: int| #![trigger gpu[j]] 0 <= j < gpu.len() ==> {
                let s = out[n + c + j];
                &&& s.lane == ProfileLane::Gpu
                &&& s.name == gpu[j].name
                &&& s.start_ns == gpu[j].start_ns
                &&& s.end_ns == gpu[j].end_ns
                &&& s.depth == gpu[j].depth
                &&& s.has_stats == gpu[j].has_stats
                &&& s.stats == gpu[j].stats
                &&& (gpu[j].parent_index < 0 ==> s.parent_index == -1)
                &&& (gpu[j].parent_index >= 0 ==> s.parent_index as int == n + c + gpu[j].parent_index)
            }
        }),
{
    let out = spec_append_frame(spans, include_cpu, names, cpu, gpu);
    let n = spans.len() as int;
    let cpu_part = if include_cpu { spec_cpu_frame(names, cpu, n) } else { Seq::empty() };
    let gpu_part = spec_gpu_frame(gpu, n + cpu_part.len());
    assert(out == spans + cpu_part + gpu_part);
    assert forall|k: int| 0 <= k < n implies #[trigger] out[k] == spans[k] by {}
    if include_cpu {
        assert forall|i: int| #![trigger cpu[i]] 0 <= i < cpu.len() implies out[n + i] == cpu_part[i] by {}
    }
    assert forall|j: int| #![trigger gpu[j]] 0 <= j < gpu.len() implies out[n + cpu_part.len() + j] == gpu_part[j] by {}
}

/// A tick of a recording capture appends the frame as [`lemma_appended_frame_keeps_every_span`]
/// describes and counts it; each CPU span of the frame lands with the begin and end times it was
/// recorded with.
pub proof fn lemma_recording_tick_keeps_span_times(
    r: CaptureRecorderView,
    names: Seq<Seq<char>>,
    cpu: Seq<CpuSpan>,
    gpu: Seq<PassSpanView>,
)
    requires
        r.state == CaptureState::Recording,
        r.include_cpu,
        r.captured_frames < u32::MAX,
        spec_parents_fit(r.capture.spans.len() as int, true, cpu, gpu),
    ensures
        ({
            let after = spec_tick(r, names, cpu, gpu);
            let n = r.capture.spans.len() as int;
            &&& after.captured_frames == r.captured_frames + 1
            &&& after.capture.spans.len() == n + cpu.len() + gpu.len()
            &&& forall|i: int| #![trigger cpu[i]] 0 <= i < cpu.len() ==> after.capture.spans[n + i].start_ns
                == cpu[i].start_ns && after.capture.spans[n + i].end_ns == cpu[i].end_ns
                && after.capture.spans[n + i].lane == ProfileLane::Cpu
            &&& forall|j: int| #![trigger gpu[j]] 0 <= j < gpu.len() ==> after.capture.spans[n + cpu.len() + j].start_ns
                == gpu[j].start_ns && after.capture.spans[n + cpu.len() + j].end_ns == gpu[j].end_ns
        }),
{
    lemma_appended_frame_keeps_every_span(r.capture.spans, true, names, cpu, gpu);
}

} // verus!

use rendering::profiler::capture::{
    cpu_now_ns, timespec_ns, CaptureMode, CaptureRecorder, CaptureState, PassSpan, ProfileCapture, ProfileCaptureMeta, ProfileLane,
    ProfileSpan, ProfilerRestore, ProfilerSettings, MAX_CAPTURE_FRAMES,
};
use rendering::profiler::cpu::{CpuMarkerRegistry, CpuProfiler, CpuSpanBuffer};
use rendering::profiler::gpu::{
    frame_span_ticks, mode_after_allocation, needs_pools, scope_available, scope_stats, scope_ticks, supported_mode,
    GpuCalibration, PipelineStats,
    ProfilerMode, RgTimestamps, ScopeRecord, MAX_PROFILED_SCOPES, PIPELINE_STATS_COUNT,
};
use rendering::profiler::MAX_FRAMES_IN_FLIGHT;

#[test]
fn off_mode_arms_no_recorder() {
    let mode = ProfilerMode::default();
    assert_eq!(mode, ProfilerMode::Off);
    let pools_ready = false;
    let rec = RgTimestamps::for_frame(mode, pools_ready, None, None);
    assert!(!rec.armed(), "the recorder is unarmed (a cheap branch) when Off");
    assert!(rec.pool.is_none());
}

#[test]
fn a_span_opened_on_a_fresh_buffer_is_top_level() {
    let mut registry = CpuMarkerRegistry::default();
    let mut buf = CpuSpanBuffer::default();
    let i = buf.begin_span(&mut registry, "frame", 0);
    assert_eq!(i, 0);
    assert_eq!(buf.spans[0].parent, -1);
    assert_eq!(buf.spans[0].depth, 0);
    assert_eq!(registry.name(buf.spans[0].marker), "frame");
}

#[test]
fn cpu_span_buffer_records_a_nested_tree() {
    let mut registry = CpuMarkerRegistry::default();
    let mut buf = CpuSpanBuffer::default();
    buf.reset();
    let outer = buf.begin_span(&mut registry, "frame", 100);
    let inner = buf.begin_span(&mut registry, "scene", 110);
    buf.end_span(inner, 180);
    buf.end_span(outer, 200);

    assert_eq!(buf.spans.len(), 2);
    assert_eq!(buf.spans[outer].parent, -1);
    assert_eq!(buf.spans[outer].depth, 0);
    assert_eq!(buf.spans[outer].start_ns, 100);
    assert_eq!(buf.spans[outer].end_ns, 200);
    assert_eq!(buf.spans[inner].parent, outer as i32);
    assert_eq!(buf.spans[inner].depth, 1);
    assert_eq!(buf.spans[inner].end_ns, 180);
    assert_eq!(registry.name(buf.spans[inner].marker), "scene");
}

#[test]
fn marker_registry_interns_names() {
    let mut r = CpuMarkerRegistry::default();
    let a = r.id("scene");
    let b = r.id("tonemap");
    let a2 = r.id("scene");
    assert_eq!(a, a2, "re-interning a name returns the same id");
    assert_ne!(a, b);
    assert_eq!(r.name(a), "scene");
}

fn make_raw(spans: &[(u64, u64, bool)]) -> Vec<u64> {
    let mut raw = vec![0u64; spans.len() * 4];
    for (i, &(b, e, avail)) in spans.iter().enumerate() {
        raw[4 * i] = b;
        raw[4 * i + 1] = if avail { 1 } else { 0 };
        raw[4 * i + 2] = e;
        raw[4 * i + 3] = if avail { 1 } else { 0 };
    }
    raw
}

fn record(name: &str, parent_index: i32, depth: u32, stats_slot: i32, pixels: u64) -> ScopeRecord {
    ScopeRecord { name: name.to_string(), parent_index, depth, stats_slot, pixels }
}

#[test]
fn unavailable_queries_decode_to_zero_spans() {
    let records = vec![record("scene", -1, 0, -1, 0)];
    let raw = make_raw(&[(1000, 3000, false)]);
    assert!(!scope_available(&raw, 0));
    assert_eq!(frame_span_ticks(records.len(), &raw, u64::MAX), None);
}

#[test]
fn frame_span_is_earliest_begin_to_latest_end() {
    let records = vec![record("outer", -1, 0, -1, 0), record("inner", 0, 1, -1, 0)];
    let raw = make_raw(&[(100, 900, true), (200, 800, true)]);
    let (begin, end) = frame_span_ticks(records.len(), &raw, u64::MAX).unwrap();
    assert_eq!(end - begin, 800, "800 ticks (not a sum)");
}

#[test]
fn stats_decode_reads_positional_counters_when_available() {
    let rec = record("scene", -1, 0, 0, 4096);
    let raw = make_raw(&[(0, 100, true)]);
    assert!(scope_available(&raw, 0));
    let mut stats = vec![0u64; MAX_PROFILED_SCOPES as usize * (PIPELINE_STATS_COUNT + 1)];
    stats[0] = 10;
    stats[1] = 12;
    stats[2] = 8;
    stats[3] = 4;
    stats[4] = 5000;
    stats[5] = 0;
    stats[PIPELINE_STATS_COUNT] = 1;
    let decoded = scope_stats(&rec, &stats).expect("stats landed");
    assert_eq!(decoded.input_vertices, 10);
    assert_eq!(decoded.fragment_invocations, 5000);
    assert_eq!(decoded.pixels, 4096, "render-area pixels from the record");
}

#[test]
fn calibrate_is_a_noop_when_unavailable() {
    let mut calibration = GpuCalibration { available: false, ..GpuCalibration::default() };
    assert!(!calibration.available);
    calibration.correlated = false;
    assert!(!calibration.wants_sample(0), "unavailable calibration must not sample");
    assert!(!calibration.correlated, "correlation stays false when calibration is unavailable");
}

#[test]
fn capture_recorder_arms_records_ready_then_drains() {
    let cpu = CpuProfiler::default();
    let mut cap = CaptureRecorder {
        state: CaptureState::Arming,
        mode: CaptureMode::Frames,
        target_frames: 3,
        captured_frames: 0,
        warmup: (MAX_FRAMES_IN_FLIGHT + 1) as u32,
        ..CaptureRecorder::default()
    };

    for _ in 0..(MAX_FRAMES_IN_FLIGHT + 1) {
        assert_eq!(cap.state, CaptureState::Arming);
        cap.tick(&cpu, 0, &[]);
    }
    assert_eq!(cap.state, CaptureState::Recording, "warmup elapsed → Recording");

    for _ in 0..3 {
        assert_eq!(cap.state, CaptureState::Recording);
        cap.tick(&cpu, 0, &[]);
    }
    assert_eq!(cap.state, CaptureState::Ready, "captured target frames → Ready");
    assert_eq!(cap.captured_frames, 3);
}

fn gpu_span(name: &str, start_ns: u64, end_ns: u64) -> ProfileSpan {
    ProfileSpan {
        name: name.to_string(),
        lane: ProfileLane::Gpu,
        start_ns,
        end_ns,
        parent_index: -1,
        depth: 0,
        has_stats: false,
        stats: PipelineStats::default(),
    }
}

#[test]
fn redundant_finish_echoes_the_last_capture_instead_of_an_empty_one() {
    let span = gpu_span("scene", 0, 1000);
    let mut cap = CaptureRecorder {
        state: CaptureState::Recording,
        captured_frames: 1,
        capture: ProfileCapture { spans: vec![span], meta: ProfileCaptureMeta::default() },
        ..CaptureRecorder::default()
    };

    let first = cap.finish(ProfileCaptureMeta::default());
    assert_eq!(first.spans.len(), 1);
    assert_eq!(first.meta.frame_count, 1);
    assert_eq!(cap.state, CaptureState::Idle);

    let second = cap.finish(ProfileCaptureMeta::default());
    assert_eq!(second.spans.len(), 1, "redundant stop echoes the last capture");
    assert_eq!(second.spans[0].name, "scene");
    assert_eq!(second.meta.frame_count, 1);
}

fn pass_span(name: &str, parent_index: i32, depth: u32) -> PassSpan {
    PassSpan {
        name: name.to_string(),
        start_ns: 0,
        end_ns: 0,
        parent_index,
        depth,
        has_stats: false,
        stats: PipelineStats::default(),
    }
}

#[test]
fn append_frame_rebases_parent_indices_across_lanes_and_frames() {
    let mut cpu = CpuProfiler::default();
    let outer = cpu.buffers[0].begin_span(&mut cpu.registry, "frame", 0);
    let inner = cpu.buffers[0].begin_span(&mut cpu.registry, "scene", 5);
    cpu.buffers[0].end_span(inner, 8);
    cpu.buffers[0].end_span(outer, 10);

    let last_timings = vec![pass_span("scene-gpu", -1, 0), pass_span("draw", 0, 1)];

    let mut cap = CaptureRecorder {
        state: CaptureState::Recording,
        include_cpu: true,
        target_frames: 2,
        ..CaptureRecorder::default()
    };
    cap.tick(&cpu, 0, &last_timings);
    cap.tick(&cpu, 0, &last_timings);

    let spans = &cap.capture.spans;
    assert_eq!(spans.len(), 8);
    assert_eq!(spans[1].parent_index, 0, "cpu child points at the cpu parent");
    assert_eq!(spans[2].lane, ProfileLane::Gpu);
    assert_eq!(spans[3].parent_index, 2, "gpu child rebased onto gpu_base");
    assert_eq!(spans[5].parent_index, 4);
    assert_eq!(spans[7].parent_index, 6);
}

#[test]
fn a_cpu_lane_left_out_rebases_gpu_parents_onto_the_frame_start() {
    let mut cpu = CpuProfiler::default();
    let outer = cpu.buffers[1].begin_span(&mut cpu.registry, "frame", 0);
    cpu.buffers[1].end_span(outer, 10);
    let last_timings = vec![pass_span("scene-gpu", -1, 0), pass_span("draw", 0, 1)];
    let mut cap = CaptureRecorder { state: CaptureState::Recording, include_cpu: false, target_frames: 1, ..CaptureRecorder::default() };
    cap.tick(&cpu, 1, &last_timings);
    assert_eq!(cap.capture.spans.len(), 2);
    assert_eq!(cap.capture.spans[0].lane, ProfileLane::Gpu);
    assert_eq!(cap.capture.spans[1].parent_index, 0);
    assert_eq!(cap.state, CaptureState::Ready);
}

#[test]
fn closing_a_span_restores_the_scope_it_opened_under() {
    let mut registry = CpuMarkerRegistry::default();
    let mut buf = CpuSpanBuffer::default();
    buf.reset();
    let parent = buf.begin_span(&mut registry, "frame", 1);
    let (scope, depth) = (buf.open_parent, buf.open_depth);
    let child = buf.begin_span(&mut registry, "pass", 2);
    buf.end_span(child, 3);
    assert_eq!((buf.open_parent, buf.open_depth), (scope, depth));
    assert_eq!(buf.spans[child].parent, parent as i32);
    assert_eq!(registry.id("frame"), 0);
}

#[test]
fn a_scope_takes_the_next_slot_pair_and_closing_restores_its_parent() {
    let mut rec = RgTimestamps::for_frame(ProfilerMode::PipelineStats, true, Some(11), Some(12));
    assert!(rec.armed());
    assert_eq!(rec.capacity, 2 * MAX_PROFILED_SCOPES);
    assert_eq!(rec.stats_capacity, MAX_PROFILED_SCOPES);
    let outer = rec.begin_scope("scene").unwrap();
    let inner = rec.begin_scope("opaque").unwrap();
    assert_eq!((outer, inner), (0, 1));
    assert_eq!(rec.next_slot, 4);
    assert_eq!(rec.records[inner].parent_index, 0);
    assert_eq!(rec.records[inner].depth, 1);
    assert_eq!(rec.end_scope(Some(inner)), Some(3));
    assert_eq!(rec.open_scope, 0);
    assert_eq!(rec.end_scope(Some(outer)), Some(1));
    assert_eq!((rec.open_scope, rec.depth), (-1, 0));
    assert_eq!(rec.end_scope(None), None);
    assert_eq!(rec.reserve_stats_slot(outer, 64), Some(0));
    assert_eq!(rec.records[outer].stats_slot, 0);
    assert_eq!(rec.records[outer].pixels, 64);
}

#[test]
fn a_full_pool_truncates_scopes_and_stats() {
    let mut rec = RgTimestamps::for_frame(ProfilerMode::Timestamps, true, Some(1), Some(2));
    assert!(rec.stats_pool.is_none(), "plain timestamps take no statistics");
    rec.capacity = 2;
    assert_eq!(rec.begin_scope("a"), Some(0));
    assert_eq!(rec.begin_scope("b"), None, "the pool is full");
    assert_eq!(rec.reserve_stats_slot(0, 1), None);
    let mut off = RgTimestamps::for_frame(ProfilerMode::Timestamps, false, Some(1), None);
    assert_eq!(off.begin_scope("c"), None, "no pools, no recording");
}

#[test]
fn a_requested_mode_degrades_to_what_the_device_supports() {
    assert_eq!(supported_mode(ProfilerMode::PipelineStats, true, true), ProfilerMode::PipelineStats);
    assert_eq!(supported_mode(ProfilerMode::PipelineStats, true, false), ProfilerMode::Timestamps);
    assert_eq!(supported_mode(ProfilerMode::Timestamps, false, true), ProfilerMode::Off);
    assert_eq!(supported_mode(ProfilerMode::Off, true, true), ProfilerMode::Off);
}

#[test]
fn masked_ticks_drop_the_invalid_high_bits() {
    let raw = make_raw(&[(0xFFFF_0000_0000_03E8, 0xFFFF_0000_0000_07D0, true)]);
    assert_eq!(scope_ticks(&raw, 0, 0xFFFF_FFFF), (1000, 2000));
}

#[test]
fn calibration_resamples_every_interval_once_correlated() {
    let mut calibration = GpuCalibration { available: true, ..GpuCalibration::default() };
    assert!(calibration.wants_sample(5));
    calibration.record_sample(-2000, 7, 5);
    assert!(calibration.correlated);
    assert_eq!(calibration.device_to_host_ns_offset, -2000);
    assert!(!calibration.wants_sample(68));
    assert!(calibration.wants_sample(69));
}

#[test]
fn a_capture_starts_arming_and_stop_restores_the_profiler() {
    let mut cap = CaptureRecorder::default();
    let mut profiler = ProfilerSettings { mode: ProfilerMode::Off, sub_scopes: false, pipeline_stats_supported: false };
    let (id, switch) = cap.start(CaptureMode::Frames, 1000, "scene".to_string(), true, true, &mut profiler);
    assert_eq!(id, 1);
    assert!(profiler.sub_scopes, "a capture times the full nested tree");
    assert_eq!(profiler.mode, ProfilerMode::Off, "the mode switch is returned for the device to make");
    assert_eq!(switch, Some(ProfilerMode::Timestamps), "stats are unsupported, so plain timestamps");
    assert_eq!(cap.state, CaptureState::Arming);
    assert_eq!(cap.target_frames, MAX_CAPTURE_FRAMES);
    assert!(!cap.include_stats);
    let now = ProfilerSettings { mode: ProfilerMode::Timestamps, sub_scopes: true, pipeline_stats_supported: false };
    let (capture, restore) = cap.stop(now, false, 0x3F80_0000, false, "gpu".to_string(), 0x4270_0000);
    assert_eq!(restore, Some(ProfilerRestore { mode: Some(ProfilerMode::Off), sub_scopes: false }));
    assert_eq!(capture.meta.frame_count, 0);
    assert_eq!(capture.meta.filter, "scene");
    assert_eq!(capture.meta.mode, ProfilerMode::Timestamps);
    assert_eq!(cap.state, CaptureState::Idle);
    let (_, again) = cap.stop(now, false, 0, false, String::new(), 0);
    assert_eq!(again, None, "a redundant stop leaves the profiler alone");
    let mut now = now;
    let (second, _) = cap.start(CaptureMode::Single, 9, String::new(), false, false, &mut now);
    assert_eq!(second, 2);
    assert_eq!(cap.target_frames, 1);
}

#[test]
fn a_clock_reading_counts_nanoseconds() {
    assert_eq!(timespec_ns(2, 5), 2_000_000_005);
    assert_eq!(timespec_ns(0, 999_999_999), 999_999_999);
    let first = cpu_now_ns();
    let second = cpu_now_ns();
    assert!(first > 0);
    assert!(second >= first);
}

#[test]
fn every_scope_records_a_parent_that_came_before_it() {
    let mut t = RgTimestamps::for_frame(ProfilerMode::Timestamps, true, Some(9), None);
    let frame = t.begin_scope("frame");
    let shadow = t.begin_scope("shadow");
    t.end_scope(shadow);
    let lit = t.begin_scope("lit");
    let sky = t.begin_scope("sky");
    t.end_scope(sky);
    t.end_scope(lit);
    t.end_scope(frame);
    let parents: Vec<i32> = t.records.iter().map(|r| r.parent_index).collect();
    assert_eq!(parents, vec![-1, 0, 0, 2]);
    for (i, parent) in parents.iter().enumerate() {
        assert!(*parent < i as i32);
    }
    assert_eq!(t.open_scope, -1);
}

#[test]
fn a_mode_switch_turns_off_when_the_pools_it_needs_cannot_be_allocated() {
    assert!(needs_pools(ProfilerMode::Timestamps, false));
    assert!(!needs_pools(ProfilerMode::Timestamps, true));
    assert!(!needs_pools(ProfilerMode::Off, false));
    assert_eq!(mode_after_allocation(ProfilerMode::PipelineStats, false, false), ProfilerMode::Off);
    assert_eq!(mode_after_allocation(ProfilerMode::PipelineStats, false, true), ProfilerMode::PipelineStats);
    assert_eq!(mode_after_allocation(ProfilerMode::Timestamps, true, false), ProfilerMode::Timestamps);
    assert_eq!(mode_after_allocation(ProfilerMode::Off, false, false), ProfilerMode::Off);
}

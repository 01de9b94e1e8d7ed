# rendering

The decision logic of a Vulkan renderer, verified with Verus.

- `src/render_graph/`: the render graph. Passes declare what they read and write; the graph
  derives every pipeline barrier, layout transition and queue-ownership transfer, tracks buffers
  by byte range, batches passes per queue for submission, and writes the exit state of imported
  resources back for the next frame. `ranges.rs` and `order.rs` hold the laws of range tracking
  and of cross-queue ordering; `record.rs` pairs a plan with its command buffers.
- `src/profiler/`: the CPU span recorder, the GPU timestamp and pipeline-statistics scope
  recorder, and the capture recorder behind the profiler's capture start and stop.
- `src/renderer/`: the renderer's control state (view publishing and window capture requests,
  per-frame timeline waits, wind edit detection, shadow arming and scene counters), which pass
  chains a frame arms (`frame_plan.rs`), and the chains' graph declarations: bloom, volumetric
  clouds, froxel fog, and the global-illumination chains (distance-field build, ReSTIR, DDGI).
- `src/vk_values.rs`: the Vulkan constants the logic speaks of, as plain integers.
- `app/`: what runs against the device (barrier emission, plan recording and submission, the
  compute chains' dispatch bodies, query pools and the profiler's mode switch), reads the
  environment, or works in floating point (profiler read-outs in milliseconds).

`tests/` exercises the library through its public interface, with the real `ash` values.

//! The render graph and frame profiler of a Vulkan renderer: declared resource usage compiled
//! into barriers, queue ownership transfers and submission batches; the CPU span recorder, GPU
//! scope recorder and bounded capture state machine; and the renderer's host-facing control
//! state.
pub mod vk_values;
pub mod render_graph;
pub mod renderer;
pub mod profiler;

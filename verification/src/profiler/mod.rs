//! The GPU/CPU profiler: the CPU span recorder, the GPU scope recorder and its query-slot
//! discipline, the decoding of read-back query words, and the bounded capture state machine.
//!
//! A switched-off profiler arms no recorder, so every scope is a cheap branch. Query results of
//! a frame slot are read back [`MAX_FRAMES_IN_FLIGHT`] frames later, after that slot's fence has
//! signalled, so reading never blocks.
pub mod cpu;
pub mod gpu;
pub mod capture;

use vstd::prelude::*;

verus! {

/// Frames the renderer keeps in flight; each owns its command buffers, query pools and span
/// buffer.
pub const MAX_FRAMES_IN_FLIGHT: usize = 2;

} // verus!

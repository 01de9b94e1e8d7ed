//! The CPU-side span recorder: the marker registry and the per-frame span buffer.
use vstd::prelude::*;
use super::MAX_FRAMES_IN_FLIGHT;

verus! {

/// Interns scope names to stable integer ids so a [`CpuSpan`] stays string-free. Names recur
/// every frame, so the table grows once and then holds; lookup is a linear scan.
pub struct CpuMarkerRegistry {
    /// The interned names; a name's id is its position.
    pub names: Vec<String>,
}

/// The names of a registry, as character sequences.
pub open spec fn spec_names(names: Seq<String>) -> Seq<Seq<char>> {
    names.map_values(|n: String| n@)
}

impl View for CpuMarkerRegistry {
    type V = Seq<Seq<char>>;

    open spec fn view(&self) -> Seq<Seq<char>> {
        spec_names(self.names@)
    }
}

impl Default for CpuMarkerRegistry {
    /// An empty registry.
    fn default() -> (r: Self)
        ensures
            r@ == Seq::<Seq<char>>::empty(),
    {
        CpuMarkerRegistry { names: Vec::new() }
    }
}

impl CpuMarkerRegistry {
    /// Maps a name to its stable id, interning it on first sight: the position of its first
    /// occurrence, or a new last position.
    pub fn id(&mut self, name: &str) -> (r: u32)
        requires
            old(self)@.len() <= u32::MAX,
        ensures
            old(self)@.contains(name@) ==> {
                &&& final(self)@ == old(self)@
                &&& r < old(self)@.len()
                &&& old(self)@[r as int] == name@
                &&& forall|k: int| 0 <= k < r ==> old(self)@[k] != name@
            },
            !old(self)@.contains(name@) ==> {
                &&& final(self)@ == old(self)@.push(name@)
                &&& r == old(self)@.len()
            },
            r < final(self)@.len(),
            final(self)@[r as int] == name@,
            forall|j: int| 0 <= j < old(self)@.len() ==> #[trigger] final(self)@[j] == old(self)@[j],
    {
        let key = String::from_str(name);
        let mut i: usize = 0;
        while i < self.names.len()
            invariant
                i <= self.names@.len(),
                self@ == old(self)@,
                key@ == name@,
                self.names@.len() <= u32::MAX,
                forall|k: int| 0 <= k < i ==> self@[k] != name@,
            decreases self.names.len() - i,
        {
            if self.names[i] == key {
                assert(self@[i as int] == self.names@[i as int]@);
                return i as u32;
            }
            assert(self@[i as int] == self.names@[i as int]@);
            i = i + 1;
        }
        proof {
            assert(!old(self)@.contains(name@)) by {
                if old(self)@.contains(name@) {
                    let k = choose|k: int| 0 <= k < old(self)@.len() && old(self)@[k] == name@;
                    assert(self@[k] != name@);
                }
            }
        }
        let n = self.names.len();
        self.names.push(key);
        assert(self@ =~= old(self)@.push(name@));
        n as u32
    }

    /// The name for an id.
    pub fn name(&self, id: u32) -> (r: &str)
        requires
            id < self@.len(),
        ensures
            r@ == self@[id as int],
    {
        self.names[id as usize].as_str()
    }
}

/// A recorded CPU span: a `[start_ns, end_ns)` interval on the render thread for one pass, with
/// its nesting. The clock's origin is arbitrary but shared within a frame, so spans are directly
/// comparable.
#[derive(Clone, Copy, Debug, PartialEq, Eq, Structural)]
pub struct CpuSpan {
    /// The index into [`CpuMarkerRegistry`].
    pub marker: u32,
    /// Begin (ns).
    pub start_ns: u64,
    /// End (ns).
    pub end_ns: u64,
    /// Nesting depth.
    pub depth: u32,
    /// The enclosing span index in the same buffer, or `-1` at top level.
    pub parent: i32,
}

/// One frame-in-flight's CPU-span sink plus the open-scope cursor. Recording is on the single
/// render thread, so the open parent and depth live here.
pub struct CpuSpanBuffer {
    /// The recorded spans.
    pub spans: Vec<CpuSpan>,
    /// The innermost open span's index, or `-1`.
    pub open_parent: i32,
    /// The current nesting depth.
    pub open_depth: u32,
}

/// The state of a span buffer: its spans and its open-scope cursor.
pub struct CpuSpanBufferView {
    /// The recorded spans.
    pub spans: Seq<CpuSpan>,
    /// The innermost open span's index, or `-1`.
    pub open_parent: i32,
    /// The current nesting depth.
    pub open_depth: u32,
}

impl View for CpuSpanBuffer {
    type V = CpuSpanBufferView;

    open spec fn view(&self) -> CpuSpanBufferView {
        CpuSpanBufferView { spans: self.spans@, open_parent: self.open_parent, open_depth: self.open_depth }
    }
}

/// Parents precede children: every span's parent is an earlier span or the top level (`-1`),
/// and the open scope is a recorded span or the top level.
pub open spec fn spec_span_tree_wf(b: CpuSpanBufferView) -> bool {
    &&& forall|i: int| 0 <= i < b.spans.len() ==> -1 <= (#[trigger] b.spans[i]).parent < i
    &&& -1 <= b.open_parent < b.spans.len()
}

/// A span buffer after opening a span of `marker` at `now_ns` under its open scope.
pub open spec fn spec_begin_span(b: CpuSpanBufferView, marker: u32, now_ns: u64) -> CpuSpanBufferView {
    CpuSpanBufferView {
        spans: b.spans.push(CpuSpan { marker, start_ns: now_ns, end_ns: 0, depth: b.open_depth, parent: b.open_parent }),
        open_parent: #[verifier::truncate] (b.spans.len() as i32),
        open_depth: (b.open_depth + 1) as u32,
    }
}

/// A span buffer after closing span `index` at `now_ns`: the span ends, and the open scope
/// returns to its parent, one level up (never below the top).
pub open spec fn spec_end_span(b: CpuSpanBufferView, index: int, now_ns: u64) -> CpuSpanBufferView {
    CpuSpanBufferView {
        spans: b.spans.update(index, CpuSpan { end_ns: now_ns, ..b.spans[index] }),
        open_parent: b.spans[index].parent,
        open_depth: if b.open_depth == 0 { 0 } else { (b.open_depth - 1) as u32 },
    }
}

impl Default for CpuSpanBuffer {
    /// An empty buffer at the top level.
    fn default() -> (r: Self)
        ensures
            r@.spans == Seq::<CpuSpan>::empty(),
            r@.open_parent == -1,
            r@.open_depth == 0,
            spec_span_tree_wf(r@),
    {
        CpuSpanBuffer { spans: Vec::new(), open_parent: -1, open_depth: 0 }
    }
}

impl CpuSpanBuffer {
    /// Clears the buffer for a fresh frame.
    pub fn reset(&mut self)
        ensures
            final(self)@.spans == Seq::<CpuSpan>::empty(),
            final(self)@.open_parent == -1,
            final(self)@.open_depth == 0,
            spec_span_tree_wf(final(self)@),
    {
        self.spans.clear();
        self.open_parent = -1;
        self.open_depth = 0;
    }

    /// Opens a span named `name` under the current open scope, recording the begin time.
    /// Returns the span index, paired with [`CpuSpanBuffer::end_span`].
    pub fn begin_span(&mut self, registry: &mut CpuMarkerRegistry, name: &str, now_ns: u64) -> (r: usize)
        requires
            old(registry)@.len() <= u32::MAX,
            old(self)@.open_depth < u32::MAX,
        ensures
            r == old(self)@.spans.len(),
            final(registry)@ == (if old(registry)@.contains(name@) {
                old(registry)@
            } else {
                old(registry)@.push(name@)
            }),
            final(self)@ == spec_begin_span(old(self)@, final(self)@.spans[r as int].marker, now_ns),
            final(registry)@[final(self)@.spans[r as int].marker as int] == name@,
            old(registry)@.contains(name@) ==> final(self)@.spans[r as int].marker < old(registry)@.len(),
            final(self)@.spans[r as int].marker < final(registry)@.len(),
            !old(registry)@.contains(name@) ==> final(self)@.spans[r as int].marker == old(registry)@.len(),
            forall|k: int| 0 <= k < final(self)@.spans[r as int].marker ==> final(registry)@[k] != name@,
            spec_span_tree_wf(old(self)@) && old(self)@.spans.len() < i32::MAX ==> spec_span_tree_wf(final(self)@),
    {
        let marker = registry.id(name);
        let index = self.spans.len();
        self.spans.push(CpuSpan { marker, start_ns: now_ns, end_ns: 0, depth: self.open_depth, parent: self.open_parent });
        self.open_parent = #[verifier::truncate] (index as i32);
        self.open_depth = self.open_depth + 1;
        index
    }

    /// Closes a span opened by [`CpuSpanBuffer::begin_span`], recording the end.
    pub fn end_span(&mut self, index: usize, now_ns: u64)
        requires
            index < old(self)@.spans.len(),
        ensures
            final(self)@ == spec_end_span(old(self)@, index as int, now_ns),
            spec_span_tree_wf(old(self)@) ==> spec_span_tree_wf(final(self)@),
    {
        let prev_parent = self.spans[index].parent;
        let mut span = self.spans[index];
        span.end_ns = now_ns;
        self.spans.set(index, span);
        self.open_parent = prev_parent;
        self.open_depth = self.open_depth.saturating_sub(1);
    }
}

/// Closing the span just opened restores the open scope it was opened under, and records the
/// span from its begin to its end under that scope, one level deeper.
pub proof fn lemma_begin_end_restores_scope(b: CpuSpanBufferView, marker: u32, t0: u64, t1: u64)
    requires
        b.open_depth < u32::MAX,
    ensures
        ({
            let after = spec_end_span(spec_begin_span(b, marker, t0), b.spans.len() as int, t1);
            &&& after.open_parent == b.open_parent
            &&& after.open_depth == b.open_depth
            &&& after.spans == b.spans.push(CpuSpan { marker, start_ns: t0, end_ns: t1, depth: b.open_depth, parent: b.open_parent })
        }),
{
    let opened = spec_begin_span(b, marker, t0);
    let after = spec_end_span(opened, b.spans.len() as int, t1);
    assert(after.spans =~= b.spans.push(CpuSpan { marker, start_ns: t0, end_ns: t1, depth: b.open_depth, parent: b.open_parent }));
}

/// The CPU side of the profiler: the persistent name registry plus one span buffer per frame in
/// flight.
pub struct CpuProfiler {
    /// The interned scope-name registry.
    pub registry: CpuMarkerRegistry,
    /// One span buffer per frame in flight.
    pub buffers: [CpuSpanBuffer; MAX_FRAMES_IN_FLIGHT],
}

impl Default for CpuProfiler {
    /// An empty registry and empty span buffers.
    fn default() -> (r: Self)
        ensures
            r.registry@ == Seq::<Seq<char>>::empty(),
            forall|i: int| 0 <= i < MAX_FRAMES_IN_FLIGHT ==> (#[trigger] r.buffers@[i])@.spans == Seq::<CpuSpan>::empty()
                && r.buffers@[i]@.open_parent == -1 && r.buffers@[i]@.open_depth == 0,
    {
        CpuProfiler { registry: CpuMarkerRegistry::default(), buffers: [CpuSpanBuffer::default(), CpuSpanBuffer::default()] }
    }
}

} // verus!

//! The GPU scope recorder, the profiler mode a device can honour, and the decoding of read-back
//! query words into ticks and counters. Ticks become nanoseconds on the device's timestamp
//! period where the read-back runs.
use vstd::prelude::*;

verus! {

/// Upper bound on GPU scopes the profiler times per frame: top-level passes plus any nested
/// sub-scopes.
pub const MAX_PROFILED_SCOPES: u32 = 160;

/// The number of pipeline-statistics counters captured per pass.
pub const PIPELINE_STATS_COUNT: usize = 6;

/// The pipeline-statistics counters captured per pass (`VkQueryPipelineStatisticFlags`), in
/// ascending bit order, the order a query returns them in: input-assembly vertices,
/// vertex-shader invocations, clipping invocations, clipping primitives, fragment-shader
/// invocations, compute-shader invocations.
pub const PIPELINE_STATS_FLAGS: u32 = 0x1 | 0x4 | 0x20 | 0x40 | 0x80 | 0x400;

/// How much per-frame instrumentation the GPU profiler captures.
#[derive(Clone, Copy, Debug, PartialEq, Eq, Structural)]
pub enum ProfilerMode {
    /// No queries: the present-only baseline cost.
    Off,
    /// Per-pass GPU timestamps.
    Timestamps,
    /// Timestamps plus per-pass pipeline statistics (deepest).
    PipelineStats,
}

impl Default for ProfilerMode {
    /// The profiler starts switched off.
    fn default() -> (r: Self)
        ensures
            r == ProfilerMode::Off,
    {
        ProfilerMode::Off
    }
}

/// The mode a device can honour for a request: no timestamps means off; no pipeline statistics
/// means plain timestamps.
pub open spec fn spec_supported_mode(requested: ProfilerMode, timestamps_supported: bool, pipeline_stats_supported: bool) -> ProfilerMode {
    if requested != ProfilerMode::Off && !timestamps_supported {
        ProfilerMode::Off
    } else if requested == ProfilerMode::PipelineStats && !pipeline_stats_supported {
        ProfilerMode::Timestamps
    } else {
        requested
    }
}

/// Degrades a requested mode to what the device can honour: no timestamps means off; no
/// pipeline statistics means plain timestamps. (Query pools that cannot be allocated turn the
/// profiler off too; that is known only once the allocation is tried.)
pub fn supported_mode(requested: ProfilerMode, timestamps_supported: bool, pipeline_stats_supported: bool) -> (r: ProfilerMode)
    ensures
        r == spec_supported_mode(requested, timestamps_supported, pipeline_stats_supported),
{
    let mut mode = requested;
    if mode != ProfilerMode::Off && !timestamps_supported {
        mode = ProfilerMode::Off;
    }
    if mode == ProfilerMode::PipelineStats && !pipeline_stats_supported {
        mode = ProfilerMode::Timestamps;
    }
    mode
}

/// Whether switching to `mode` must first allocate the query pools: any mode but off needs them.
pub fn needs_pools(mode: ProfilerMode, pools_ready: bool) -> (r: bool)
    ensures
        r == (mode != ProfilerMode::Off && !pools_ready),
{
    mode != ProfilerMode::Off && !pools_ready
}

/// The mode a switch settles on once the pools were asked for: off when they were needed and
/// could not be allocated, else the supported mode.
pub fn mode_after_allocation(mode: ProfilerMode, pools_ready: bool, allocated: bool) -> (r: ProfilerMode)
    ensures
        r == (if mode != ProfilerMode::Off && !pools_ready && !allocated {
            ProfilerMode::Off
        } else {
            mode
        }),
{
    if needs_pools(mode, pools_ready) && !allocated {
        ProfilerMode::Off
    } else {
        mode
    }
}

/// Raw pipeline-statistics counts for one pass.
#[derive(Clone, Copy, Debug, PartialEq, Eq, Structural)]
pub struct PipelineStats {
    /// Input-assembly vertices.
    pub input_vertices: u64,
    /// Vertex-shader invocations.
    pub vertex_invocations: u64,
    /// Clipping-stage primitive-test invocations.
    pub clipping_invocations: u64,
    /// Primitives surviving clipping.
    pub clipping_primitives: u64,
    /// Fragment-shader invocations.
    pub fragment_invocations: u64,
    /// Compute-shader invocations.
    pub compute_invocations: u64,
    /// Render-area pixels for the overdraw ratio (0 for compute / no query).
    pub pixels: u64,
}

impl Default for PipelineStats {
    /// All counters zero.
    fn default() -> (r: Self)
        ensures
            r == (PipelineStats {
                input_vertices: 0,
                vertex_invocations: 0,
                clipping_invocations: 0,
                clipping_primitives: 0,
                fragment_invocations: 0,
                compute_invocations: 0,
                pixels: 0,
            }),
    {
        PipelineStats {
            input_vertices: 0,
            vertex_invocations: 0,
            clipping_invocations: 0,
            clipping_primitives: 0,
            fragment_invocations: 0,
            compute_invocations: 0,
            pixels: 0,
        }
    }
}

/// One recorded GPU scope: its name and nesting. The i-th record owns query slots `2i` (begin)
/// and `2i+1` (end).
pub struct ScopeRecord {
    /// The scope name.
    pub name: String,
    /// The enclosing scope's record index, or `-1` at top level.
    pub parent_index: i32,
    /// Nesting depth.
    pub depth: u32,
    /// The pipeline-stats query slot (top-level passes only), or `-1`.
    pub stats_slot: i32,
    /// Render-area pixels at stats time, for the overdraw ratio.
    pub pixels: u64,
}

/// A scope record's contents.
pub struct ScopeRecordView {
    /// The scope name.
    pub name: Seq<char>,
    /// The enclosing scope's record index, or `-1`.
    pub parent_index: i32,
    /// Nesting depth.
    pub depth: u32,
    /// The pipeline-stats query slot, or `-1`.
    pub stats_slot: i32,
    /// Render-area pixels at stats time.
    pub pixels: u64,
}

impl View for ScopeRecord {
    type V = ScopeRecordView;

    open spec fn view(&self) -> ScopeRecordView {
        ScopeRecordView {
            name: self.name@,
            parent_index: self.parent_index,
            depth: self.depth,
            stats_slot: self.stats_slot,
            pixels: self.pixels,
        }
    }
}

/// The contents of a list of scope records.
pub open spec fn spec_records(records: Seq<ScopeRecord>) -> Seq<ScopeRecordView> {
    records.map_values(|r: ScopeRecord| r@)
}

/// The GPU timestamp recorder armed per frame. A scope takes the next free query-slot pair on
/// begin, pushing a [`ScopeRecord`] under the open scope, so the nesting is the hierarchy. No
/// pool means recording is off.
pub struct RgTimestamps {
    /// The frame slot's timestamp query pool, or `None` when capture is off this frame.
    pub pool: Option<u64>,
    /// Total query slots in the pool (2 per scope).
    pub capacity: u32,
    /// One record per scope, in begin order.
    pub records: Vec<ScopeRecord>,
    /// Next free query slot (begin = `next_slot`, end = `+1`).
    pub next_slot: u32,
    /// Innermost open scope's record index, or `-1`.
    pub open_scope: i32,
    /// Current nesting depth.
    pub depth: u32,
    /// The frame slot's pipeline-stats pool, or `None` when no stats are taken this frame.
    pub stats_pool: Option<u64>,
    /// Total stats query slots.
    pub stats_capacity: u32,
    /// Next free stats slot.
    pub next_stats_slot: u32,
}

/// Parents precede children: every record's parent is an earlier record or the top level
/// (`-1`), and while a pool is bound the open scope is a recorded scope or the top level.
pub open spec fn spec_scope_tree_wf(records: Seq<ScopeRecordView>, open_scope: i32, armed: bool) -> bool {
    &&& forall|i: int| 0 <= i < records.len() ==> -1 <= (#[trigger] records[i]).parent_index < i
    &&& armed ==> -1 <= open_scope < records.len()
}

impl RgTimestamps {
    /// The recorder's scope tree is well formed (see [`spec_scope_tree_wf`]).
    pub open spec fn tree_wf(&self) -> bool {
        spec_scope_tree_wf(spec_records(self.records@), self.open_scope, self.pool is Some)
    }
}

impl Default for RgTimestamps {
    /// An unarmed recorder.
    fn default() -> (r: Self)
        ensures
            r.pool is None,
            r.capacity == 0,
            r.records@.len() == 0,
            r.next_slot == 0,
            r.open_scope == 0,
            r.depth == 0,
            r.stats_pool is None,
            r.stats_capacity == 0,
            r.next_stats_slot == 0,
            r.tree_wf(),
    {
        RgTimestamps {
            pool: None,
            capacity: 0,
            records: Vec::new(),
            next_slot: 0,
            open_scope: 0,
            depth: 0,
            stats_pool: None,
            stats_capacity: 0,
            next_stats_slot: 0,
        }
    }
}

impl RgTimestamps {
    /// The recorder for a frame slot under a profiler mode: unarmed when the profiler is off or
    /// its pools are not allocated; otherwise bound to the slot's timestamp pool with room for
    /// [`MAX_PROFILED_SCOPES`] scopes, and to its stats pool in pipeline-statistics mode.
    pub fn for_frame(mode: ProfilerMode, pools_ready: bool, timestamp_pool: Option<u64>, stats_pool: Option<u64>) -> (r: Self)
        ensures
            (mode == ProfilerMode::Off || !pools_ready) ==> {
                &&& r.pool is None
                &&& r.capacity == 0
                &&& r.stats_pool is None
                &&& r.stats_capacity == 0
                &&& r.records@.len() == 0
                &&& r.next_slot == 0
                &&& r.open_scope == 0
                &&& r.depth == 0
                &&& r.next_stats_slot == 0
            },
            !(mode == ProfilerMode::Off || !pools_ready) ==> {
                &&& r.pool == timestamp_pool
                &&& r.capacity == 2 * MAX_PROFILED_SCOPES
                &&& r.records@.len() == 0
                &&& r.next_slot == 0
                &&& r.open_scope == -1
                &&& r.depth == 0
                &&& r.stats_pool == (if mode == ProfilerMode::PipelineStats { stats_pool } else { None })
                &&& r.stats_capacity == (if r.stats_pool is Some { MAX_PROFILED_SCOPES } else { 0 })
                &&& r.next_stats_slot == 0
            },
            r.tree_wf(),
    {
        if mode == ProfilerMode::Off || !pools_ready {
            return RgTimestamps::default();
        }
        let stats = if mode == ProfilerMode::PipelineStats {
            stats_pool
        } else {
            None
        };
        RgTimestamps {
            pool: timestamp_pool,
            capacity: 2 * MAX_PROFILED_SCOPES,
            records: Vec::new(),
            next_slot: 0,
            open_scope: -1,
            depth: 0,
            stats_pool: stats,
            stats_capacity: if stats.is_some() {
                MAX_PROFILED_SCOPES
            } else {
                0
            },
            next_stats_slot: 0,
        }
    }

    /// Whether recording is armed (a pool is bound).
    pub fn armed(&self) -> (r: bool)
        ensures
            r == self.pool is Some,
    {
        self.pool.is_some()
    }

    /// Opens a GPU scope under the current open scope, taking the next query-slot pair; the
    /// begin timestamp goes into slot `2 * index`. Returns the record index, or `None` when
    /// inactive: no pool, or the pool is full (overflow truncates to a begin-order prefix of
    /// the tree, so parents always precede children).
    pub fn begin_scope(&mut self, name: &str) -> (r: Option<usize>)
        requires
            old(self).next_slot < u32::MAX,
            old(self).records@.len() < i32::MAX,
            old(self).depth < u32::MAX,
        ensures
            (old(self).pool is None || old(self).next_slot + 1 >= old(self).capacity) ==> {
                &&& r is None
                &&& spec_records(final(self).records@) == spec_records(old(self).records@)
                &&& final(self).next_slot == old(self).next_slot
                &&& final(self).open_scope == old(self).open_scope
                &&& final(self).depth == old(self).depth
            },
            !(old(self).pool is None || old(self).next_slot + 1 >= old(self).capacity) ==> {
                &&& r == Some(old(self).records@.len() as usize)
                &&& spec_records(final(self).records@) == spec_records(old(self).records@).push(
                    ScopeRecordView { name: name@, parent_index: old(self).open_scope, depth: old(self).depth, stats_slot: -1i32, pixels: 0 },
                )
                &&& final(self).next_slot == old(self).next_slot + 2
                &&& final(self).open_scope == old(self).records@.len()
                &&& final(self).depth == old(self).depth + 1
            },
            final(self).pool == old(self).pool,
            final(self).capacity == old(self).capacity,
            final(self).stats_pool == old(self).stats_pool,
            final(self).stats_capacity == old(self).stats_capacity,
            final(self).next_stats_slot == old(self).next_stats_slot,
            old(self).tree_wf() ==> final(self).tree_wf(),
    {
        if self.pool.is_none() {
            return None;
        }
        if self.next_slot + 1 >= self.capacity {
            return None;
        }
        self.next_slot = self.next_slot + 2;
        let prev_parent = self.open_scope;
        let record_index = self.records.len();
        let ghost before = spec_records(self.records@);
        self.records.push(ScopeRecord { name: String::from_str(name), parent_index: prev_parent, depth: self.depth, stats_slot: -1i32, pixels: 0 });
        assert(spec_records(self.records@) =~= before.push(
            ScopeRecordView { name: name@, parent_index: prev_parent, depth: self.depth, stats_slot: -1i32, pixels: 0 },
        ));
        self.open_scope = record_index as i32;
        self.depth = self.depth + 1;
        Some(record_index)
    }

    /// Closes the scope [`RgTimestamps::begin_scope`] opened, restoring the open-scope cursor.
    /// Returns the query slot the end timestamp goes into (`2 * index + 1`), or `None` for an
    /// inactive scope or an unarmed recorder, which change nothing.
    pub fn end_scope(&mut self, record_index: Option<usize>) -> (r: Option<u32>)
        requires
            old(self).pool is Some && record_index is Some ==> {
                &&& record_index.unwrap() < old(self).records@.len()
                &&& 2 * record_index.unwrap() + 1 <= u32::MAX
            },
        ensures
            (record_index is None || old(self).pool is None) ==> {
                &&& r is None
                &&& final(self).open_scope == old(self).open_scope
                &&& final(self).depth == old(self).depth
            },
            (record_index is Some && old(self).pool is Some) ==> {
                &&& r == Some((2 * record_index.unwrap() + 1) as u32)
                &&& final(self).open_scope == old(self).records@[record_index.unwrap() as int].parent_index
                &&& final(self).depth == (if old(self).depth == 0 { 0 } else { (old(self).depth - 1) as u32 })
            },
            spec_records(final(self).records@) == spec_records(old(self).records@),
            final(self).pool == old(self).pool,
            final(self).next_slot == old(self).next_slot,
            final(self).capacity == old(self).capacity,
            final(self).stats_pool == old(self).stats_pool,
            final(self).stats_capacity == old(self).stats_capacity,
            final(self).next_stats_slot == old(self).next_stats_slot,
            old(self).tree_wf() ==> final(self).tree_wf(),
    {
        let index = match record_index {
            Some(i) => i,
            None => {
                return None;
            },
        };
        if self.pool.is_none() {
            return None;
        }
        let begin_slot = (index as u32) * 2;
        let parent = self.records[index].parent_index;
        assert(spec_records(self.records@)[index as int] == self.records@[index as int]@);
        self.open_scope = parent;
        self.depth = self.depth.saturating_sub(1);
        Some(begin_slot + 1)
    }

    /// Reserves a pipeline-stats query slot for the top-level pass whose scope is at
    /// `record_index`, stamping its render-area pixels. Returns the stats slot, or `None` when
    /// stats are not armed or the stats pool is full.
    pub fn reserve_stats_slot(&mut self, record_index: usize, pixels: u64) -> (r: Option<u32>)
        requires
            (old(self).stats_pool is Some && old(self).next_stats_slot < old(self).stats_capacity) ==> record_index
                < old(self).records@.len(),
        ensures
            (old(self).stats_pool is None || old(self).next_stats_slot >= old(self).stats_capacity) ==> {
                &&& r is None
                &&& spec_records(final(self).records@) == spec_records(old(self).records@)
                &&& final(self).next_stats_slot == old(self).next_stats_slot
            },
            !(old(self).stats_pool is None || old(self).next_stats_slot >= old(self).stats_capacity) ==> {
                &&& r == Some(old(self).next_stats_slot)
                &&& final(self).next_stats_slot == old(self).next_stats_slot + 1
                &&& spec_records(final(self).records@) == spec_records(old(self).records@).update(
                    record_index as int,
                    ScopeRecordView {
                        stats_slot: old(self).next_stats_slot as i32,
                        pixels,
                        ..spec_records(old(self).records@)[record_index as int]
                    },
                )
            },
            final(self).pool == old(self).pool,
            final(self).next_slot == old(self).next_slot,
            final(self).open_scope == old(self).open_scope,
            final(self).depth == old(self).depth,
            final(self).capacity == old(self).capacity,
            final(self).stats_pool == old(self).stats_pool,
            final(self).stats_capacity == old(self).stats_capacity,
            old(self).tree_wf() ==> final(self).tree_wf(),
    {
        if self.stats_pool.is_none() {
            return None;
        }
        if self.next_stats_slot >= self.stats_capacity {
            return None;
        }
        let slot = self.next_stats_slot;
        self.next_stats_slot = self.next_stats_slot + 1;
        let ghost before = spec_records(self.records@);
        let old_record = &self.records[record_index];
        let record = ScopeRecord {
            name: old_record.name.clone(),
            parent_index: old_record.parent_index,
            depth: old_record.depth,
            stats_slot: slot as i32,
            pixels,
        };
        self.records.set(record_index, record);
        assert(spec_records(self.records@) =~= before.update(
            record_index as int,
            ScopeRecordView { stats_slot: slot as i32, pixels, ..before[record_index as int] },
        ));
        Some(slot)
    }
}

/// Whether both timestamps of scope `i` have landed in the read-back words (per scope:
/// begin, begin availability, end, end availability).
pub open spec fn spec_available(raw: Seq<u64>, i: int) -> bool {
    raw[4 * i + 1] != 0 && raw[4 * i + 3] != 0
}

/// The earliest begin and latest end, in masked ticks, over the available scopes among the
/// first `n`; `None` when none is available.
pub open spec fn spec_span(raw: Seq<u64>, n: int, mask: u64) -> Option<(u64, u64)>
    decreases n,
{
    if n <= 0 {
        None
    } else {
        let prev = spec_span(raw, n - 1, mask);
        if spec_available(raw, n - 1) {
            let b = raw[4 * (n - 1)] & mask;
            let e = raw[4 * (n - 1) + 2] & mask;
            match prev {
                None => Some((b, e)),
                Some((pb, pe)) => Some((if b < pb { b } else { pb }, if e > pe { e } else { pe })),
            }
        } else {
            prev
        }
    }
}

/// Whether both timestamps of scope `i` have landed.
pub fn scope_available(raw: &[u64], i: usize) -> (r: bool)
    requires
        4 * i + 3 < raw.len(),
    ensures
        r == spec_available(raw@, i as int),
{
    raw[4 * i + 1] != 0 && raw[4 * i + 3] != 0
}

/// The frame's extent in masked ticks: the earliest begin and the latest end over the scopes
/// whose timestamps both landed, or `None` when none did. The span is not a sum: sibling and
/// async scopes overlap, and a parent brackets its children.
pub fn frame_span_ticks(scope_count: usize, raw: &[u64], mask: u64) -> (r: Option<(u64, u64)>)
    requires
        4 * scope_count <= raw.len(),
    ensures
        r == spec_span(raw@, scope_count as int, mask),
{
    let mut span: Option<(u64, u64)> = None;
    let mut i: usize = 0;
    while i < scope_count
        invariant
            i <= scope_count,
            4 * scope_count <= raw.len(),
            span == spec_span(raw@, i as int, mask),
        decreases scope_count - i,
    {
        if scope_available(raw, i) {
            let b = raw[4 * i] & mask;
            let e = raw[4 * i + 2] & mask;
            span = match span {
                None => Some((b, e)),
                Some((pb, pe)) => Some((if b < pb { b } else { pb }, if e > pe { e } else { pe })),
            };
        }
        i = i + 1;
    }
    span
}

/// The frame span bounds every available scope and is attained: its begin is some available
/// scope's begin and its end some available scope's end.
pub proof fn lemma_span_bounds(raw: Seq<u64>, n: int, mask: u64)
    requires
        0 <= n,
        4 * n <= raw.len(),
    ensures
        spec_span(raw, n, mask) is None <==> forall|i: int| 0 <= i < n ==> !spec_available(raw, i),
        spec_span(raw, n, mask) matches Some((b, e)) ==> {
            &&& forall|i: int| 0 <= i < n && spec_available(raw, i) ==> b <= raw[4 * i] & mask && raw[4 * i + 2] & mask <= e
            &&& exists|i: int| 0 <= i < n && spec_available(raw, i) && b == raw[4 * i] & mask
            &&& exists|j: int| 0 <= j < n && spec_available(raw, j) && e == raw[4 * j + 2] & mask
        },
    decreases n,
{
    if n > 0 {
        lemma_span_bounds(raw, n - 1, mask);
        let k = n - 1;
        if spec_available(raw, k) {
            assert(spec_available(raw, k));
        }
    }
}

/// A scope's masked begin and end ticks.
pub fn scope_ticks(raw: &[u64], i: usize, mask: u64) -> (r: (u64, u64))
    requires
        4 * i + 3 < raw.len(),
    ensures
        r == (raw@[4 * i as int] & mask, raw@[4 * i as int + 2] & mask),
{
    (raw[4 * i] & mask, raw[4 * i + 2] & mask)
}

/// The pipeline statistics a scope's stats slot holds, when it has a slot and the slot's
/// availability word says the query landed: the six counters in order, and the scope's pixels.
pub open spec fn spec_scope_stats(record: ScopeRecordView, stats: Seq<u64>) -> Option<PipelineStats> {
    if record.stats_slot >= 0 {
        let base = record.stats_slot * (PIPELINE_STATS_COUNT + 1);
        if stats[base + PIPELINE_STATS_COUNT] != 0 {
            Some(
                PipelineStats {
                    input_vertices: stats[base],
                    vertex_invocations: stats[base + 1],
                    clipping_invocations: stats[base + 2],
                    clipping_primitives: stats[base + 3],
                    fragment_invocations: stats[base + 4],
                    compute_invocations: stats[base + 5],
                    pixels: record.pixels,
                },
            )
        } else {
            None
        }
    } else {
        None
    }
}

/// Decodes a scope's pipeline statistics from the read-back stats words (per slot: the six
/// counters then an availability word).
pub fn scope_stats(record: &ScopeRecord, stats: &[u64]) -> (r: Option<PipelineStats>)
    requires
        record.stats_slot >= 0 ==> record.stats_slot * (PIPELINE_STATS_COUNT + 1) + PIPELINE_STATS_COUNT < stats.len(),
    ensures
        r == spec_scope_stats(record@, stats@),
{
    if record.stats_slot < 0 {
        return None;
    }
    let base = (record.stats_slot as usize) * (PIPELINE_STATS_COUNT + 1);
    if stats[base + PIPELINE_STATS_COUNT] == 0 {
        return None;
    }
    Some(
        PipelineStats {
            input_vertices: stats[base],
            vertex_invocations: stats[base + 1],
            clipping_invocations: stats[base + 2],
            clipping_primitives: stats[base + 3],
            fragment_invocations: stats[base + 4],
            compute_invocations: stats[base + 5],
            pixels: record.pixels,
        },
    )
}

/// Decoding a scope's statistics. Each query slot holds the six counters in the bit order of
/// [`PIPELINE_STATS_FLAGS`] (input-assembly vertices, vertex-shader invocations, clipping
/// invocations, clipping primitives, fragment-shader invocations, compute-shader invocations)
/// followed by its availability word. A scope with a slot whose availability word is set decodes
/// to exactly those six words, in that order, with the scope's own pixel count; a scope with no
/// slot, or whose slot has not landed, decodes to nothing.
pub proof fn lemma_scope_stats_read_the_slot_in_bit_order(record: ScopeRecordView, stats: Seq<u64>)
    requires
        record.stats_slot >= 0 ==> 7 * record.stats_slot + 6 < stats.len(),
    ensures
        ({
            let slot = record.stats_slot as int;
            let base = 7 * slot;
            match spec_scope_stats(record, stats) {
                Some(p) => {
                    &&& slot >= 0
                    &&& stats[base + 6] != 0
                    &&& seq![
                        p.input_vertices,
                        p.vertex_invocations,
                        p.clipping_invocations,
                        p.clipping_primitives,
                        p.fragment_invocations,
                        p.compute_invocations,
                    ] == stats.subrange(base, base + 6)
                    &&& p.pixels == record.pixels
                },
                None => slot < 0 || stats[base + 6] == 0,
            }
        }),
{
    let slot = record.stats_slot as int;
    let base = 7 * slot;
    if let Some(p) = spec_scope_stats(record, stats) {
        assert(seq![
            p.input_vertices,
            p.vertex_invocations,
            p.clipping_invocations,
            p.clipping_primitives,
            p.fragment_invocations,
            p.compute_invocations,
        ] =~= stats.subrange(base, base + 6));
    }
}

/// VK_EXT_calibrated_timestamps state: the offset that projects a GPU tick onto the CPU clock
/// axis. `correlated` stays false until a sample lands.
#[derive(Clone, Copy, Debug, PartialEq, Eq, Structural)]
pub struct GpuCalibration {
    /// Extension present and a host domain matching the CPU clock.
    pub available: bool,
    /// The calibrateable host domain (a `VkTimeDomainEXT`).
    pub host_domain: i32,
    /// Additive ns offset, device ns to host ns.
    pub device_to_host_ns_offset: i64,
    /// Sample confidence; larger is looser.
    pub max_deviation_ns: u64,
    /// Whether a valid offset has been sampled this session.
    pub correlated: bool,
    /// The frame serial of the last sample, gating the periodic re-sample.
    pub last_calibrated_serial: u64,
}

/// Frames between calibration re-samples once correlated.
pub const CALIBRATION_INTERVAL: u64 = 64;

impl Default for GpuCalibration {
    /// No calibration available or sampled.
    fn default() -> (r: Self)
        ensures
            !r.available && !r.correlated,
            r.host_domain == 0 && r.device_to_host_ns_offset == 0 && r.max_deviation_ns == 0 && r.last_calibrated_serial == 0,
    {
        GpuCalibration {
            available: false,
            host_domain: 0,
            device_to_host_ns_offset: 0,
            max_deviation_ns: 0,
            correlated: false,
            last_calibrated_serial: 0,
        }
    }
}

impl GpuCalibration {
    /// Whether frame `frame_serial` re-samples the clocks: only when calibration is available,
    /// and once correlated only every [`CALIBRATION_INTERVAL`] frames (serials wrap).
    pub fn wants_sample(&self, frame_serial: u64) -> (r: bool)
        ensures
            r == (self.available && !(self.correlated && vstd::wrapping::u64_specs::wrapping_sub(
                frame_serial,
                self.last_calibrated_serial,
            ) < CALIBRATION_INTERVAL)),
    {
        if !self.available {
            return false;
        }
        !(self.correlated && frame_serial.wrapping_sub(self.last_calibrated_serial) < CALIBRATION_INTERVAL)
    }

    /// Stores a clock sample's offset and confidence, taken at frame `frame_serial`.
    pub fn record_sample(&mut self, offset_ns: i64, max_deviation_ns: u64, frame_serial: u64)
        ensures
            final(self).device_to_host_ns_offset == offset_ns,
            final(self).max_deviation_ns == max_deviation_ns,
            final(self).correlated,
            final(self).last_calibrated_serial == frame_serial,
            final(self).available == old(self).available,
            final(self).host_domain == old(self).host_domain,
    {
        self.device_to_host_ns_offset = offset_ns;
        self.max_deviation_ns = max_deviation_ns;
        self.correlated = true;
        self.last_calibrated_serial = frame_serial;
    }

    /// Forgets the sampled correlation (the profiler was switched off): the next session samples
    /// afresh before it projects GPU ticks onto the host clock. Availability, the host domain and
    /// the last sample's values are kept.
    pub fn forget_correlation(&mut self)
        ensures
            *final(self) == (GpuCalibration { correlated: false, ..*old(self) }),
    {
        self.correlated = false;
    }
}


/// The frame's extent bounds every measured scope and is attained: with none of the first `n`
/// scopes measured there is no extent; otherwise the extent begins no later than any measured
/// scope begins and ends no earlier than any measured scope ends, its begin is some measured
/// scope's begin and its end is some measured scope's end (all in masked ticks).
pub proof fn lemma_frame_span_is_earliest_begin_to_latest_end(raw: Seq<u64>, n: int, mask: u64)
    requires
        n >= 0,
    ensures
        spec_span(raw, n, mask) is None <==> (forall|i: int| 0 <= i < n ==> !#[trigger] spec_available(raw, i)),
        spec_span(raw, n, mask) matches Some((b, e)) ==> {
            &&& forall|i: int| 0 <= i < n && #[trigger] spec_available(raw, i) ==> b <= raw[4 * i] & mask
                && raw[4 * i + 2] & mask <= e
            &&& exists|i: int| 0 <= i < n && #[trigger] spec_available(raw, i) && b == raw[4 * i] & mask
            &&& exists|i: int| 0 <= i < n && #[trigger] spec_available(raw, i) && e == raw[4 * i + 2] & mask
        },
    decreases n,
{
    if n > 0 {
        lemma_frame_span_is_earliest_begin_to_latest_end(raw, n - 1, mask);
        let j = n - 1;
        if spec_available(raw, j) {
            let b = raw[4 * j] & mask;
            let e = raw[4 * j + 2] & mask;
            match spec_span(raw, n - 1, mask) {
                None => {
                    assert(spec_span(raw, n, mask) == Some((b, e)));
                },
                Some((pb, pe)) => {
                    let nb = if b < pb { b } else { pb };
                    let ne = if e > pe { e } else { pe };
                    assert(spec_span(raw, n, mask) == Some((nb, ne)));
                    if !(b < pb) {
                        let i = choose|i: int| 0 <= i < n - 1 && #[trigger] spec_available(raw, i) && pb == raw[4 * i] & mask;
                        assert(0 <= i < n && spec_available(raw, i) && nb == raw[4 * i] & mask);
                    }
                    if !(e > pe) {
                        let i = choose|i: int| 0 <= i < n - 1 && #[trigger] spec_available(raw, i) && pe == raw[4 * i + 2] & mask;
                        assert(0 <= i < n && spec_available(raw, i) && ne == raw[4 * i + 2] & mask);
                    }
                },
            }
        }
    }
}

/// A request degrades only as the device requires: the mode is off when the device has no
/// timestamps, statistics only when asked for and supported, timestamps when statistics were
/// asked for without support or timestamps were asked for, and a request the device supports is
/// kept.
pub proof fn lemma_supported_mode_degrades_only_as_needed(requested: ProfilerMode, timestamps: bool, stats: bool)
    ensures
        ({
            let m = spec_supported_mode(requested, timestamps, stats);
            &&& m != ProfilerMode::Off ==> timestamps && requested != ProfilerMode::Off
            &&& m == ProfilerMode::PipelineStats ==> stats && requested == ProfilerMode::PipelineStats
            &&& (requested == ProfilerMode::Off ==> m == ProfilerMode::Off)
            &&& (timestamps && requested == ProfilerMode::Timestamps ==> m == ProfilerMode::Timestamps)
            &&& (timestamps && requested == ProfilerMode::PipelineStats ==> m == (if stats {
                ProfilerMode::PipelineStats
            } else {
                ProfilerMode::Timestamps
            }))
            &&& (!timestamps ==> m == ProfilerMode::Off)
        }),
{
}

} // verus!

//! Why a compiled frame submits in order: a pass only ever acquires from a queue other than
//! its own, and only from passes before it, so the batches of a plan wait only for batches
//! that come earlier.
use vstd::prelude::*;
use super::{RgBufferAccessState, RgQueueAssignment, RgQueueFamilies, RgResourceView, RgUsageInfo, RgBufferRange};
use super::barriers::{
    RgQueueRelease, spec_access_after, spec_access_releases, spec_image_releases, spec_range_bounds,
    spec_scan_releases, spec_scan_retained, spec_split_releases, spec_split_retained,
    spec_new_buffer_access, spec_usage_info,
};
use super::graph::{RenderGraph, spec_graph_wf, spec_resolve_queue, spec_table, spec_pass_wf};
use super::plan::{
    RgEntryRelease, RgPassBarriersView, RgTarget, lemma_compile_entry_below, lemma_compile_queue,
    lemma_derive_keeps_shape, lemma_pass_targets_wf, lemma_pass_wf_transfers, spec_compile,
    spec_derive_targets, spec_distribute, spec_pass_targets, spec_refs_below, spec_table_owners,
    spec_targets_wf, spec_release_refs_below, lemma_derive_refs,
};

verus! {

/// Releases that all leave a queue other than `queue`.
pub open spec fn spec_releases_leave_other(releases: Seq<RgQueueRelease>, queue: RgQueueAssignment) -> bool {
    forall|k: int| 0 <= k < releases.len() ==> (#[trigger] releases[k]).source_queue != queue
}

/// Releases whose source passes all come before `pass`.
pub open spec fn spec_releases_before(releases: Seq<RgQueueRelease>, pass: int) -> bool {
    forall|k: int| 0 <= k < releases.len() ==> ((#[trigger] releases[k]).pass matches Some(s) ==> s < pass)
}

/// Tracked ranges that name only passes before `pass`, or `pass` itself on `queue`.
pub open spec fn spec_accs_before_on(accs: Seq<RgBufferAccessState>, pass: int, queue: RgQueueAssignment) -> bool {
    forall|j: int| 0 <= j < accs.len() ==> ((#[trigger] accs[j]).last_pass matches Some(s)
        ==> s < pass || (s == pass && accs[j].queue == queue))
}

/// A table that names only passes before `pass`, or `pass` itself on `queue`.
pub open spec fn spec_refs_before_on(table: Seq<RgResourceView>, pass: int, queue: RgQueueAssignment) -> bool {
    forall|i: int| 0 <= i < table.len() ==> {
        &&& ((#[trigger] table[i]).last_pass matches Some(s) ==> s < pass || (s == pass && table[i].queue == Some(queue)))
        &&& spec_accs_before_on(table[i].buffer_accesses, pass, queue)
    }
}

/// Scanning tracked ranges releases only ranges last used on another queue.
pub proof fn lemma_scan_leaves_other(
    prev: Seq<RgBufferAccessState>,
    start: u64,
    end: u64,
    queue: RgQueueAssignment,
    queue_family: u32,
    buffer: u64,
)
    ensures
        spec_releases_leave_other(spec_scan_releases(prev, start, end, queue, queue_family, buffer), queue),
    decreases prev.len(),
{
    if prev.len() > 0 {
        lemma_scan_leaves_other(prev.drop_last(), start, end, queue, queue_family, buffer);
        let ra = spec_scan_releases(prev.drop_last(), start, end, queue, queue_family, buffer);
        let rb = spec_split_releases(prev.last(), start, end, queue, queue_family, buffer);
        assert forall|k: int| 0 <= k < (ra + rb).len() implies (#[trigger] (ra + rb)[k]).source_queue != queue by {
            if k < ra.len() {
                assert((ra + rb)[k] == ra[k]);
            } else {
                assert((ra + rb)[k] == rb[k - ra.len()]);
            }
        }
    }
}

/// Deriving a run of accesses releases only resources last used on another queue.
pub proof fn lemma_derive_leaves_other(
    table: Seq<RgResourceView>,
    targets: Seq<RgTarget>,
    pass: usize,
    queue: RgQueueAssignment,
    queue_family: u32,
)
    ensures
        spec_releases_leave_other(spec_derive_targets(table, targets, pass, queue, queue_family).releases, queue),
    decreases targets.len(),
{
    if targets.len() > 0 {
        let rest = targets.drop_last();
        lemma_derive_leaves_other(table, rest, pass, queue, queue_family);
        let prev = spec_derive_targets(table, rest, pass, queue, queue_family);
        let t = targets.last();
        let r = prev.table[t.resource.index as int];
        let info = spec_usage_info(t.usage);
        let ra = prev.releases;
        let rb = spec_access_releases(r, info, t.range, queue, queue_family);
        if !r.is_image {
            let (start, end) = spec_range_bounds(r.buffer_size, t.range);
            lemma_scan_leaves_other(r.buffer_accesses, start, end, queue, queue_family, r.buffer);
        }
        assert forall|k: int| 0 <= k < (ra + rb).len() implies (#[trigger] (ra + rb)[k]).source_queue != queue by {
            if k < ra.len() {
                assert((ra + rb)[k] == ra[k]);
            } else {
                assert((ra + rb)[k] == rb[k - ra.len()]);
            }
        }
    }
}

/// Scanning tracked ranges that name only earlier passes, or this pass on this queue, keeps them
/// so and releases only earlier passes.
pub proof fn lemma_scan_before(
    prev: Seq<RgBufferAccessState>,
    start: u64,
    end: u64,
    queue: RgQueueAssignment,
    queue_family: u32,
    buffer: u64,
    pass: int,
)
    requires
        spec_accs_before_on(prev, pass, queue),
    ensures
        spec_accs_before_on(spec_scan_retained(prev, start, end), pass, queue),
        spec_releases_before(spec_scan_releases(prev, start, end, queue, queue_family, buffer), pass),
    decreases prev.len(),
{
    if prev.len() > 0 {
        let rest = prev.drop_last();
        assert forall|j: int| 0 <= j < rest.len() implies ((#[trigger] rest[j]).last_pass matches Some(s)
            ==> s < pass || (s == pass && rest[j].queue == queue)) by {
            assert(rest[j] == prev[j]);
        }
        lemma_scan_before(rest, start, end, queue, queue_family, buffer, pass);
        let p = prev.last();
        assert(p == prev[prev.len() - 1]);
        let a = spec_scan_retained(rest, start, end);
        let b = spec_split_retained(p, start, end);
        assert forall|j: int| 0 <= j < (a + b).len() implies ((#[trigger] (a + b)[j]).last_pass matches Some(s)
            ==> s < pass || (s == pass && (a + b)[j].queue == queue)) by {
            if j < a.len() {
                assert((a + b)[j] == a[j]);
            } else {
                assert((a + b)[j] == b[j - a.len()]);
            }
        }
        let ra = spec_scan_releases(rest, start, end, queue, queue_family, buffer);
        let rb = spec_split_releases(p, start, end, queue, queue_family, buffer);
        assert forall|k: int| 0 <= k < (ra + rb).len() implies ((#[trigger] (ra + rb)[k]).pass matches Some(s) ==> s < pass) by {
            if k < ra.len() {
                assert((ra + rb)[k] == ra[k]);
            } else {
                assert((ra + rb)[k] == rb[k - ra.len()]);
            }
        }
    }
}

/// One access of `pass` on `queue` keeps a resource naming only earlier passes, or this pass on
/// this queue, and releases only earlier passes.
pub proof fn lemma_access_before(
    r: RgResourceView,
    info: RgUsageInfo,
    range: Option<RgBufferRange>,
    pass: usize,
    queue: RgQueueAssignment,
    queue_family: u32,
)
    requires
        r.last_pass matches Some(s) ==> s < pass || (s == pass && r.queue == Some(queue)),
        spec_accs_before_on(r.buffer_accesses, pass as int, queue),
    ensures
        ({
            let after = spec_access_after(r, info, range, pass, queue, queue_family);
            &&& (after.last_pass matches Some(s) ==> s < pass || (s == pass && after.queue == Some(queue)))
            &&& spec_accs_before_on(after.buffer_accesses, pass as int, queue)
        }),
        spec_releases_before(spec_access_releases(r, info, range, queue, queue_family), pass as int),
{
    if !r.is_image {
        let (start, end) = spec_range_bounds(r.buffer_size, range);
        lemma_scan_before(r.buffer_accesses, start, end, queue, queue_family, r.buffer, pass as int);
        let ret = spec_scan_retained(r.buffer_accesses, start, end);
        let nb = spec_new_buffer_access(r.buffer_accesses, start, end, info, pass, queue, queue_family);
        assert forall|j: int| 0 <= j < ret.push(nb).len() implies ((#[trigger] ret.push(nb)[j]).last_pass matches Some(s)
            ==> s < pass || (s == pass && ret.push(nb)[j].queue == queue)) by {
            if j < ret.len() {
                assert(ret.push(nb)[j] == ret[j]);
            }
        }
    } else {
        let rel = spec_image_releases(r, info, queue, queue_family);
        assert forall|k: int| 0 <= k < rel.len() implies ((#[trigger] rel[k]).pass matches Some(s) ==> s < pass) by {}
    }
}

/// Deriving the accesses of `pass` on `queue` against a table that names only earlier passes,
/// or this pass on this queue, keeps it so and releases only earlier passes.
pub proof fn lemma_derive_before(
    table: Seq<RgResourceView>,
    targets: Seq<RgTarget>,
    pass: usize,
    queue: RgQueueAssignment,
    queue_family: u32,
)
    requires
        spec_refs_before_on(table, pass as int, queue),
        spec_targets_wf(table, targets),
        spec_table_owners(table),
    ensures
        spec_refs_before_on(spec_derive_targets(table, targets, pass, queue, queue_family).table, pass as int, queue),
        spec_releases_before(spec_derive_targets(table, targets, pass, queue, queue_family).releases, pass as int),
    decreases targets.len(),
{
    if targets.len() > 0 {
        let rest = targets.drop_last();
        assert forall|k: int| 0 <= k < rest.len() implies {
            &&& (#[trigger] rest[k]).resource.index < table.len()
            &&& super::barriers::spec_access_allowed(table[rest[k].resource.index as int], rest[k].range)
        } by {
            assert(rest[k] == targets[k]);
        }
        lemma_derive_before(table, rest, pass, queue, queue_family);
        lemma_derive_keeps_shape(table, rest, pass, queue, queue_family);
        let prev = spec_derive_targets(table, rest, pass, queue, queue_family);
        let t = targets.last();
        assert(t == targets[targets.len() - 1]);
        let idx = t.resource.index as int;
        let r = prev.table[idx];
        let info = spec_usage_info(t.usage);
        lemma_access_before(r, info, t.range, pass, queue, queue_family);
        let cur = spec_derive_targets(table, targets, pass, queue, queue_family);
        assert(targets.drop_last() == rest);
        let after = spec_access_after(r, info, t.range, pass, queue, queue_family);
        assert(cur.table == prev.table.update(idx, after));
        assert forall|i: int| 0 <= i < cur.table.len() implies {
            &&& ((#[trigger] cur.table[i]).last_pass matches Some(s) ==> s < pass || (s == pass && cur.table[i].queue == Some(queue)))
            &&& spec_accs_before_on(cur.table[i].buffer_accesses, pass as int, queue)
        } by {
            if i == idx {
                assert(cur.table[i] == after);
            } else {
                assert(cur.table[i] == prev.table[i]);
            }
        }
        let ra = prev.releases;
        let rb = spec_access_releases(r, info, t.range, queue, queue_family);
        assert(cur.releases == ra + rb);
        assert forall|k: int| 0 <= k < (ra + rb).len() implies ((#[trigger] (ra + rb)[k]).pass matches Some(s) ==> s < pass) by {
            if k < ra.len() {
                assert((ra + rb)[k] == ra[k]);
            } else {
                assert((ra + rb)[k] == rb[k - ra.len()]);
            }
        }
    }
}

/// Every pass waits only for passes before it.
pub open spec fn spec_schedule_waits_backward(schedule: Seq<RgPassBarriersView>) -> bool {
    forall|q: int, j: int| 0 <= q < schedule.len() && 0 <= j < schedule[q].wait_for_passes.len()
        ==> #[trigger] schedule[q].wait_for_passes[j] < q
}

/// Every release whose source is the previous frame is acquired on a queue other than its
/// source queue.
pub open spec fn spec_entries_cross_queues(entry: Seq<RgEntryRelease>, schedule: Seq<RgPassBarriersView>) -> bool {
    forall|k: int| 0 <= k < entry.len() ==> {
        &&& (#[trigger] entry[k]).destination_pass < schedule.len()
        &&& entry[k].source_queue != schedule[entry[k].destination_pass as int].queue
    }
}

/// Routing releases of pass `p` that come from earlier passes keeps every pass waiting only
/// for earlier passes; routing releases that leave other queues than `p`'s keeps every entry
/// release crossing queues; and no pass changes queue.
pub proof fn lemma_distribute_order(
    schedule: Seq<RgPassBarriersView>,
    entry: Seq<RgEntryRelease>,
    p: int,
    releases: Seq<RgQueueRelease>,
)
    requires
        0 <= p < schedule.len(),
        p <= usize::MAX,
        spec_release_refs_below(releases, schedule.len() as int),
    ensures
        ({
            let (s, e) = spec_distribute(schedule, entry, p, releases);
            &&& s.len() == schedule.len()
            &&& forall|q: int| 0 <= q < s.len() ==> (#[trigger] s[q]).queue == schedule[q].queue
            &&& (spec_schedule_waits_backward(schedule) && spec_releases_before(releases, p))
                ==> spec_schedule_waits_backward(s)
            &&& (spec_entries_cross_queues(entry, schedule) && spec_releases_leave_other(releases, schedule[p].queue))
                ==> spec_entries_cross_queues(e, s)
        }),
    decreases releases.len(),
{
    if releases.len() > 0 {
        let rest = releases.drop_last();
        assert forall|k: int| 0 <= k < rest.len() implies ((#[trigger] rest[k]).pass matches Some(s) ==> s < schedule.len()) by {
            assert(rest[k] == releases[k]);
        }
        if spec_releases_before(releases, p) {
            assert forall|k: int| 0 <= k < rest.len() implies ((#[trigger] rest[k]).pass matches Some(s) ==> s < p) by {
                assert(rest[k] == releases[k]);
            }
        }
        lemma_distribute_order(schedule, entry, p, rest);
        let (s, e) = spec_distribute(schedule, entry, p, rest);
        let rel = releases.last();
        assert(rel == releases[releases.len() - 1]);
        if spec_releases_leave_other(releases, schedule[p].queue) {
            assert forall|k: int| 0 <= k < rest.len() implies (#[trigger] rest[k]).source_queue != schedule[p].queue by {
                assert(rest[k] == releases[k]);
            }
        }
        match rel.pass {
            Some(src) => {
                let waits = s[p].wait_for_passes;
                let s1 = s.update(
                    p,
                    RgPassBarriersView {
                        wait_for_passes: if waits.contains(src) {
                            waits
                        } else {
                            waits.push(src)
                        },
                        ..s[p]
                    },
                );
                let (s2, e2) = spec_distribute(schedule, entry, p, releases);
                assert(e2 == e);
                assert forall|q: int| 0 <= q < s2.len() implies (#[trigger] s2[q]).queue == schedule[q].queue
                    && s2[q].wait_for_passes == s1[q].wait_for_passes by {
                    assert(s1[q].queue == s[q].queue);
                }
                if spec_schedule_waits_backward(schedule) && spec_releases_before(releases, p) {
                    assert(src < p);
                    assert forall|q: int, j: int| 0 <= q < s2.len() && 0 <= j < s2[q].wait_for_passes.len()
                        implies #[trigger] s2[q].wait_for_passes[j] < q by {
                        assert(s2[q].wait_for_passes == s1[q].wait_for_passes);
                        if q == p {
                            if !waits.contains(src) && j == waits.len() {
                                assert(s1[q].wait_for_passes[j] == src);
                            } else {
                                assert(s1[q].wait_for_passes[j] == s[q].wait_for_passes[j]);
                            }
                        } else {
                            assert(s1[q] == s[q]);
                        }
                    }
                }
                if spec_entries_cross_queues(entry, schedule) && spec_releases_leave_other(releases, schedule[p].queue) {
                    assert forall|k: int| 0 <= k < e2.len() implies {
                        &&& (#[trigger] e2[k]).destination_pass < s2.len()
                        &&& e2[k].source_queue != s2[e2[k].destination_pass as int].queue
                    } by {
                        assert(s[e[k].destination_pass as int].queue == s2[e[k].destination_pass as int].queue);
                    }
                }
            },
            None => {
                let (s2, e2) = spec_distribute(schedule, entry, p, releases);
                assert(s2 == s);
                if spec_entries_cross_queues(entry, schedule) && spec_releases_leave_other(releases, schedule[p].queue) {
                    assert(rel.source_queue != schedule[p].queue);
                    assert forall|k: int| 0 <= k < e2.len() implies {
                        &&& (#[trigger] e2[k]).destination_pass < s2.len()
                        &&& e2[k].source_queue != s2[e2[k].destination_pass as int].queue
                    } by {
                        if k < e.len() {
                            assert(e2[k] == e[k]);
                        }
                    }
                }
            },
        }
    }
}

/// Compiling a prefix of the passes routes every release whose source is the previous frame to
/// a pass on a queue other than the source queue; and, when the graph starts from state that
/// names no pass, makes every pass wait only for passes before it.
pub proof fn lemma_compile_order(g: RenderGraph, families: RgQueueFamilies, upto: int)
    requires
        spec_graph_wf(g),
        spec_refs_below(spec_table(g.resources@), g.passes@.len() as int),
        g.passes@.len() <= usize::MAX,
        0 <= upto <= g.passes@.len(),
    ensures
        spec_entries_cross_queues(spec_compile(g, families, upto).entry, spec_compile(g, families, upto).schedule),
        spec_refs_below(spec_table(g.resources@), 0) ==> {
            &&& spec_refs_below(spec_compile(g, families, upto).table, upto)
            &&& spec_schedule_waits_backward(spec_compile(g, families, upto).schedule)
        },
    decreases upto,
{
    let table0 = spec_table(g.resources@);
    let n = g.passes@.len() as int;
    if upto == 0 {
        let c = spec_compile(g, families, 0);
        assert forall|q: int, j: int| 0 <= q < c.schedule.len() && 0 <= j < c.schedule[q].wait_for_passes.len()
            implies #[trigger] c.schedule[q].wait_for_passes[j] < q by {
            assert(c.schedule[q].wait_for_passes.len() == 0);
        }
    } else {
        lemma_compile_order(g, families, upto - 1);
        lemma_compile_queue(g, families, upto - 1);
        let prev = spec_compile(g, families, upto - 1);
        let p = upto - 1;
        let (queue, queue_family) = spec_resolve_queue(g, g.passes@[p], p, families);
        assert(spec_pass_wf(table0, g.passes@[p]));
        lemma_pass_wf_transfers(table0, prev.table, g.passes@[p]);
        lemma_pass_targets_wf(prev.table, g.passes@[p]);
        let targets = spec_pass_targets(g.passes@[p]);
        let d = spec_derive_targets(prev.table, targets, p as usize, queue, queue_family);
        lemma_derive_leaves_other(prev.table, targets, p as usize, queue, queue_family);
        lemma_derive_refs(prev.table, targets, p as usize, queue, queue_family, n);
        let s1 = prev.schedule.update(
            p,
            RgPassBarriersView { before_images: d.image, before_buffers: d.buffer, ..prev.schedule[p] },
        );
        assert(s1[p].queue == queue);
        if spec_refs_below(table0, 0) {
            assert(spec_refs_before_on(prev.table, p, queue)) by {
                assert forall|i: int| 0 <= i < prev.table.len() implies {
                    &&& ((#[trigger] prev.table[i]).last_pass matches Some(s) ==> s < p || (s == p && prev.table[i].queue == Some(queue)))
                    &&& spec_accs_before_on(prev.table[i].buffer_accesses, p, queue)
                } by {
                    assert(prev.table[i].last_pass matches Some(s) ==> s < p);
                    assert forall|j: int| 0 <= j < prev.table[i].buffer_accesses.len() implies
                        ((#[trigger] prev.table[i].buffer_accesses[j]).last_pass matches Some(s)
                        ==> s < p || (s == p && prev.table[i].buffer_accesses[j].queue == queue)) by {
                        assert(prev.table[i].buffer_accesses[j].last_pass matches Some(s) ==> s < p);
                    }
                }
            }
            lemma_derive_before(prev.table, targets, p as usize, queue, queue_family);
        }
        let c = spec_compile(g, families, upto);
        lemma_compile_entry_below(g, families, upto - 1);
        assert(spec_entries_cross_queues(prev.entry, s1)) by {
            assert forall|k: int| 0 <= k < prev.entry.len() implies {
                &&& (#[trigger] prev.entry[k]).destination_pass < s1.len()
                &&& prev.entry[k].source_queue != s1[prev.entry[k].destination_pass as int].queue
            } by {
                assert(s1[prev.entry[k].destination_pass as int].queue == prev.schedule[prev.entry[k].destination_pass as int].queue);
            }
        }
        if spec_refs_below(table0, 0) {
            assert(spec_schedule_waits_backward(s1)) by {
                assert forall|q: int, j: int| 0 <= q < s1.len() && 0 <= j < s1[q].wait_for_passes.len()
                    implies #[trigger] s1[q].wait_for_passes[j] < q by {
                    assert(s1[q].wait_for_passes == prev.schedule[q].wait_for_passes);
                }
            }
        }
        lemma_distribute_order(s1, prev.entry, p, d.releases);
        if spec_refs_below(table0, 0) {
            let t = d.table;
            assert forall|i: int| 0 <= i < t.len() implies {
                &&& ((#[trigger] t[i]).last_pass matches Some(s) ==> s < upto)
                &&& forall|j: int| 0 <= j < t[i].buffer_accesses.len() ==>
                    ((#[trigger] t[i].buffer_accesses[j]).last_pass matches Some(s) ==> s < upto)
            } by {
                assert(spec_accs_before_on(t[i].buffer_accesses, p, queue));
            }
        }
    }
}

} // verus!

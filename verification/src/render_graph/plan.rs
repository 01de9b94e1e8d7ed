//! Compilation of a graph into pass-local barriers, queue-ownership releases, and contiguous
//! queue batches.
use vstd::prelude::*;
use super::{
    RgAttachment, RgBufferBarrier, RgImageBarrier, RgPass, RgQueueAssignment, RgQueueFamilies,
    RgResource, RgResourceState, RgResourceView, RgUsage, RgUsageInfo,
    RgAccess, RgBufferRange, spec_queue_family,
};
use super::barriers::{
    DerivedBarriers, RgQueueRelease, RgQueueReleaseBarrier, apply_access_queued,
    spec_access_after, spec_access_allowed, spec_access_buffer_barriers,
    spec_access_image_barriers, spec_access_releases, spec_owner_consistent, spec_range_fits,
    spec_declared_access_ok, spec_usage_info, usage_info, validate_declared_access,
};
use super::graph::{
    RenderGraph, spec_access_wf, spec_attachment_wf, spec_graph_wf, spec_pass_wf,
    spec_resolve_queue, spec_table,
};
use super::order::{lemma_compile_order, spec_entries_cross_queues, spec_schedule_waits_backward};

verus! {

/// One resource access a pass performs: the resource, how, and over which bytes.
pub struct RgTarget {
    /// The resource.
    pub resource: RgResource,
    /// How the pass touches it.
    pub usage: RgUsage,
    /// The byte range of a buffer access.
    pub range: Option<RgBufferRange>,
}

/// The accesses a list of declared accesses performs, in order.
pub open spec fn spec_access_targets(accesses: Seq<RgAccess>) -> Seq<RgTarget> {
    accesses.map_values(|a: RgAccess| RgTarget { resource: a.resource, usage: a.usage, range: a.buffer_range })
}

/// The writes an attachment performs: the attachment, then its resolve target.
pub open spec fn spec_attachment_targets(att: RgAttachment, usage: RgUsage) -> Seq<RgTarget> {
    let first = seq![RgTarget { resource: att.resource, usage, range: None }];
    match att.resolve {
        Some(res) => first.push(RgTarget { resource: res, usage, range: None }),
        None => first,
    }
}

/// The writes a list of color attachments performs, in order.
pub open spec fn spec_color_targets(colors: Seq<RgAttachment>) -> Seq<RgTarget>
    decreases colors.len(),
{
    if colors.len() == 0 {
        Seq::empty()
    } else {
        spec_color_targets(colors.drop_last()) + spec_attachment_targets(colors.last(), RgUsage::ColorWrite)
    }
}

/// Every access a pass performs, in the order the graph derives them: declared accesses, then
/// color attachments (each followed by its resolve target), then the depth attachment and its
/// resolve target.
pub open spec fn spec_pass_targets(pass: RgPass) -> Seq<RgTarget> {
    spec_access_targets(pass.accesses@) + spec_color_targets(pass.colors@) + match pass.depth {
        Some(d) => spec_attachment_targets(d, RgUsage::DepthWrite),
        None => Seq::empty(),
    }
}

/// What deriving a run of accesses produces: the advanced table and the barriers and releases,
/// in order.
pub struct RgDerived {
    /// The resource table afterwards.
    pub table: Seq<RgResourceView>,
    /// Image barriers before the pass.
    pub image: Seq<RgImageBarrier>,
    /// Buffer barriers before the pass.
    pub buffer: Seq<RgBufferBarrier>,
    /// Queue changes the accesses cause.
    pub releases: Seq<RgQueueRelease>,
}

/// Derives a run of accesses in order, each against the table as the previous ones left it.
pub open spec fn spec_derive_targets(
    table: Seq<RgResourceView>,
    targets: Seq<RgTarget>,
    pass: usize,
    queue: RgQueueAssignment,
    queue_family: u32,
) -> RgDerived
    decreases targets.len(),
{
    if targets.len() == 0 {
        RgDerived { table, image: Seq::empty(), buffer: Seq::empty(), releases: Seq::empty() }
    } else {
        let prev = spec_derive_targets(table, targets.drop_last(), pass, queue, queue_family);
        let t = targets.last();
        let r = prev.table[t.resource.index as int];
        let info = spec_usage_info(t.usage);
        RgDerived {
            table: prev.table.update(
                t.resource.index as int,
                spec_access_after(r, info, t.range, pass, queue, queue_family),
            ),
            image: prev.image + spec_access_image_barriers(r, info, queue, queue_family),
            buffer: prev.buffer + spec_access_buffer_barriers(r, info, t.range, queue, queue_family),
            releases: prev.releases + spec_access_releases(r, info, t.range, queue, queue_family),
        }
    }
}

/// The table's shape the derivation never changes: which entries are images, buffer sizes,
/// usages and lifetimes; and every image's queue identity stays backed by its family.
pub open spec fn spec_same_shape(a: Seq<RgResourceView>, b: Seq<RgResourceView>) -> bool {
    &&& a.len() == b.len()
    &&& forall|i: int| 0 <= i < a.len() ==> {
        &&& (#[trigger] b[i]).is_image == a[i].is_image
        &&& b[i].buffer_size == a[i].buffer_size
        &&& b[i].buffer_usage == a[i].buffer_usage
        &&& b[i].buffer_lifetime == a[i].buffer_lifetime
        &&& b[i].external_state == a[i].external_state
        &&& b[i].external_buffer_state == a[i].external_buffer_state
        &&& b[i].buffer == a[i].buffer
        &&& b[i].image == a[i].image
    }
}

/// Every image of the table has its queue identity backed by its owning family.
pub open spec fn spec_table_owners(table: Seq<RgResourceView>) -> bool {
    forall|i: int| 0 <= i < table.len() ==> (#[trigger] table[i]).is_image ==> spec_owner_consistent(table[i])
}

/// The derivation keeps the table's shape and its owner consistency.
pub proof fn lemma_derive_keeps_shape(
    table: Seq<RgResourceView>,
    targets: Seq<RgTarget>,
    pass: usize,
    queue: RgQueueAssignment,
    queue_family: u32,
)
    requires
        spec_table_owners(table),
        forall|k: int| 0 <= k < targets.len() ==> (#[trigger] targets[k]).resource.index < table.len(),
        forall|k: int| 0 <= k < targets.len() ==> spec_access_allowed(table[(#[trigger] targets[k]).resource.index as int], targets[k].range),
    ensures
        spec_same_shape(table, spec_derive_targets(table, targets, pass, queue, queue_family).table),
        spec_table_owners(spec_derive_targets(table, targets, pass, queue, queue_family).table),
    decreases targets.len(),
{
    if targets.len() > 0 {
        let rest = targets.drop_last();
        assert forall|k: int| 0 <= k < rest.len() implies (#[trigger] rest[k]).resource.index < table.len() by {
            assert(rest[k] == targets[k]);
        }
        assert forall|k: int| 0 <= k < rest.len() implies spec_access_allowed(table[(#[trigger] rest[k]).resource.index as int], rest[k].range) by {
            assert(rest[k] == targets[k]);
        }
        lemma_derive_keeps_shape(table, rest, pass, queue, queue_family);
    }
}

/// Every access of a run names an entry of the table that allows it.
pub open spec fn spec_targets_wf(table: Seq<RgResourceView>, targets: Seq<RgTarget>) -> bool {
    forall|k: int| 0 <= k < targets.len() ==> {
        &&& (#[trigger] targets[k]).resource.index < table.len()
        &&& spec_access_allowed(table[targets[k].resource.index as int], targets[k].range)
    }
}

/// An access allowed on a table stays allowed on a table of the same shape whose images keep
/// their owners consistent.
pub proof fn lemma_allowed_transfers(
    table0: Seq<RgResourceView>,
    cur: Seq<RgResourceView>,
    idx: int,
    range: Option<RgBufferRange>,
)
    requires
        spec_same_shape(table0, cur),
        spec_table_owners(cur),
        0 <= idx < table0.len(),
        spec_access_allowed(table0[idx], range),
    ensures
        spec_access_allowed(cur[idx], range),
{
    assert(cur[idx].is_image == table0[idx].is_image);
}

/// Derivation one more access at a time.
pub proof fn lemma_derive_push(
    table0: Seq<RgResourceView>,
    done: Seq<RgTarget>,
    t: RgTarget,
    pass: usize,
    queue: RgQueueAssignment,
    queue_family: u32,
)
    ensures
        ({
            let prev = spec_derive_targets(table0, done, pass, queue, queue_family);
            let r = prev.table[t.resource.index as int];
            let info = spec_usage_info(t.usage);
            spec_derive_targets(table0, done.push(t), pass, queue, queue_family) == RgDerived {
                table: prev.table.update(
                    t.resource.index as int,
                    spec_access_after(r, info, t.range, pass, queue, queue_family),
                ),
                image: prev.image + spec_access_image_barriers(r, info, queue, queue_family),
                buffer: prev.buffer + spec_access_buffer_barriers(r, info, t.range, queue, queue_family),
                releases: prev.releases + spec_access_releases(r, info, t.range, queue, queue_family),
            }
        }),
{
    assert(done.push(t).drop_last() =~= done);
}

/// Applies one access to the table in place, extending the derivation by it.
fn derive_one(
    resources: &mut Vec<RgResourceState>,
    t: RgTarget,
    pass_index: usize,
    queue: RgQueueAssignment,
    queue_family: u32,
    barriers: &mut DerivedBarriers,
    Ghost(table0): Ghost<Seq<RgResourceView>>,
    Ghost(done): Ghost<Seq<RgTarget>>,
)
    requires
        spec_table_owners(table0),
        spec_targets_wf(table0, done),
        spec_targets_wf(table0, seq![t]),
        ({
            let d = spec_derive_targets(table0, done, pass_index, queue, queue_family);
            &&& spec_table(old(resources)@) == d.table
            &&& old(barriers).image@ == d.image
            &&& old(barriers).buffer@ == d.buffer
            &&& old(barriers).releases@ == d.releases
        }),
    ensures
        spec_targets_wf(table0, done.push(t)),
        ({
            let d = spec_derive_targets(table0, done.push(t), pass_index, queue, queue_family);
            &&& spec_same_shape(table0, d.table)
            &&& spec_table_owners(d.table)
            &&& spec_table(final(resources)@) == d.table
            &&& final(barriers).image@ == d.image
            &&& final(barriers).buffer@ == d.buffer
            &&& final(barriers).releases@ == d.releases
        }),
{
    proof {
        lemma_derive_keeps_shape(table0, done, pass_index, queue, queue_family);
        let cur = spec_table(resources@);
        assert(seq![t][0] == t);
        lemma_allowed_transfers(table0, cur, t.resource.index as int, t.range);
        lemma_derive_push(table0, done, t, pass_index, queue, queue_family);
        assert forall|k: int| 0 <= k < done.push(t).len() implies {
            &&& (#[trigger] done.push(t)[k]).resource.index < table0.len()
            &&& spec_access_allowed(table0[done.push(t)[k].resource.index as int], done.push(t)[k].range)
        } by {
            if k < done.len() {
                assert(done.push(t)[k] == done[k]);
            } else {
                assert(done.push(t)[k] == seq![t][0]);
            }
        }
    }
    let idx = t.resource.index as usize;
    apply_access_queued(
        &mut resources[idx],
        usage_info(t.usage),
        t.range,
        pass_index,
        queue,
        queue_family,
        barriers,
    );
    proof {
        let d = spec_derive_targets(table0, done.push(t), pass_index, queue, queue_family);
        assert(spec_table(resources@) =~= d.table);
        lemma_derive_keeps_shape(table0, done.push(t), pass_index, queue, queue_family);
    }
}

/// Derives the barriers a pass needs from its declared accesses and attachments, advancing the
/// resource table. Color/depth attachments are treated as the matching write usage; an MSAA
/// resolve target is a second write of that kind.
pub fn derive_pass_barriers_for(
    resources: &mut Vec<RgResourceState>,
    pass: &RgPass,
    pass_index: usize,
    queue: RgQueueAssignment,
    queue_family: u32,
) -> (barriers: DerivedBarriers)
    requires
        spec_pass_wf(spec_table(old(resources)@), *pass),
        spec_table_owners(spec_table(old(resources)@)),
    ensures
        ({
            let d = spec_derive_targets(
                spec_table(old(resources)@),
                spec_pass_targets(*pass),
                pass_index,
                queue,
                queue_family,
            );
            &&& spec_table(final(resources)@) == d.table
            &&& barriers.image@ == d.image
            &&& barriers.buffer@ == d.buffer
            &&& barriers.releases@ == d.releases
            &&& spec_same_shape(spec_table(old(resources)@), d.table)
            &&& spec_table_owners(d.table)
            &&& forall|n: int| pass_index < n && spec_refs_below(spec_table(old(resources)@), n)
                ==> spec_refs_below(d.table, n) && spec_release_refs_below(d.releases, n)
        }),
{
    let ghost table0 = spec_table(resources@);
    let ghost mut done: Seq<RgTarget> = Seq::empty();
    let mut barriers = DerivedBarriers::default();
    proof {
        assert(barriers.image@ =~= Seq::<RgImageBarrier>::empty());
        assert(barriers.buffer@ =~= Seq::<RgBufferBarrier>::empty());
        assert(barriers.releases@ =~= Seq::<RgQueueRelease>::empty());
    }
    let mut k: usize = 0;
    while k < pass.accesses.len()
        invariant
            k <= pass.accesses@.len(),
            spec_pass_wf(table0, *pass),
            spec_table_owners(table0),
            spec_targets_wf(table0, done),
            done == spec_access_targets(pass.accesses@.take(k as int)),
            ({
                let d = spec_derive_targets(table0, done, pass_index, queue, queue_family);
                &&& spec_table(resources@) == d.table
                &&& barriers.image@ == d.image
                &&& barriers.buffer@ == d.buffer
                &&& barriers.releases@ == d.releases
            }),
        decreases pass.accesses.len() - k,
    {
        let access = pass.accesses[k];
        let t = RgTarget { resource: access.resource, usage: access.usage, range: access.buffer_range };
        proof {
            assert(spec_access_wf(table0, pass.accesses@[k as int]));
            assert(seq![t][0] == t);
        }
        derive_one(resources, t, pass_index, queue, queue_family, &mut barriers, Ghost(table0), Ghost(done));
        proof {
            assert(spec_access_targets(pass.accesses@.take(k as int + 1)) =~= done.push(t));
            done = done.push(t);
        }
        k = k + 1;
    }
    assert(pass.accesses@.take(k as int) =~= pass.accesses@);
    let ghost base = done;
    let mut c: usize = 0;
    while c < pass.colors.len()
        invariant
            c <= pass.colors@.len(),
            spec_pass_wf(table0, *pass),
            spec_table_owners(table0),
            spec_targets_wf(table0, done),
            done == base + spec_color_targets(pass.colors@.take(c as int)),
            ({
                let d = spec_derive_targets(table0, done, pass_index, queue, queue_family);
                &&& spec_table(resources@) == d.table
                &&& barriers.image@ == d.image
                &&& barriers.buffer@ == d.buffer
                &&& barriers.releases@ == d.releases
            }),
        decreases pass.colors.len() - c,
    {
        let att = pass.colors[c];
        let t = RgTarget { resource: att.resource, usage: RgUsage::ColorWrite, range: None };
        proof {
            assert(spec_attachment_wf(table0, pass.colors@[c as int]));
            assert(seq![t][0] == t);
        }
        derive_one(resources, t, pass_index, queue, queue_family, &mut barriers, Ghost(table0), Ghost(done));
        proof {
            done = done.push(t);
        }
        if let Some(resolve) = att.resolve {
            let t2 = RgTarget { resource: resolve, usage: RgUsage::ColorWrite, range: None };
            proof {
                assert(seq![t2][0] == t2);
            }
            derive_one(resources, t2, pass_index, queue, queue_family, &mut barriers, Ghost(table0), Ghost(done));
            proof {
                done = done.push(t2);
            }
        }
        proof {
            let cs = pass.colors@.take(c as int + 1);
            assert(cs.drop_last() =~= pass.colors@.take(c as int));
            assert(done =~= base + spec_color_targets(cs));
        }
        c = c + 1;
    }
    assert(pass.colors@.take(c as int) =~= pass.colors@);
    if let Some(depth) = pass.depth {
        let t = RgTarget { resource: depth.resource, usage: RgUsage::DepthWrite, range: None };
        proof {
            assert(seq![t][0] == t);
        }
        derive_one(resources, t, pass_index, queue, queue_family, &mut barriers, Ghost(table0), Ghost(done));
        proof {
            done = done.push(t);
        }
        if let Some(resolve) = depth.resolve {
            let t2 = RgTarget { resource: resolve, usage: RgUsage::DepthWrite, range: None };
            proof {
                assert(seq![t2][0] == t2);
            }
            derive_one(resources, t2, pass_index, queue, queue_family, &mut barriers, Ghost(table0), Ghost(done));
            proof {
                done = done.push(t2);
            }
        }
    }
    assert(done =~= spec_pass_targets(*pass));
    proof {
        lemma_derive_keeps_shape(table0, done, pass_index, queue, queue_family);
        assert forall|n: int| pass_index < n && spec_refs_below(table0, n) implies spec_refs_below(
            spec_derive_targets(table0, done, pass_index, queue, queue_family).table,
            n,
        ) && spec_release_refs_below(spec_derive_targets(table0, done, pass_index, queue, queue_family).releases, n) by {
            lemma_derive_refs(table0, done, pass_index, queue, queue_family, n);
        }
    }
    barriers
}

// ---------------------------------------------------------------------------------------------
// Whole-graph compilation.

impl RenderGraph {
    /// Derives one pass's barriers against the graph's resource table, advancing the table (see
    /// [`derive_pass_barriers_for`]).
    pub fn derive_pass_barriers(
        &mut self,
        pass: &RgPass,
        pass_index: usize,
        queue: RgQueueAssignment,
        queue_family: u32,
    ) -> (barriers: DerivedBarriers)
        requires
            spec_pass_wf(spec_table(old(self).resources@), *pass),
            spec_table_owners(spec_table(old(self).resources@)),
        ensures
            ({
                let d = spec_derive_targets(
                    spec_table(old(self).resources@),
                    spec_pass_targets(*pass),
                    pass_index,
                    queue,
                    queue_family,
                );
                &&& spec_table(final(self).resources@) == d.table
                &&& barriers.image@ == d.image
                &&& barriers.buffer@ == d.buffer
                &&& barriers.releases@ == d.releases
            }),
            final(self).passes@ == old(self).passes@,
            final(self).external_states@ == old(self).external_states@,
            final(self).external_buffer_states@ == old(self).external_buffer_states@,
    {
        derive_pass_barriers_for(&mut self.resources, pass, pass_index, queue, queue_family)
    }
}

/// Barriers and queue assignment compiled for one pass. Queue-family release barriers execute
/// after the pass body; matching acquire barriers are in the destination pass's `before_*`
/// lists, and `wait_for_passes` names the source passes whose submissions must signal first.
pub struct RgPassBarriers {
    /// Resolved execution queue.
    pub queue: RgQueueAssignment,
    /// Queue-family index for the selected queue.
    pub queue_family: u32,
    /// Source passes whose queue submissions must signal before this pass may acquire.
    pub wait_for_passes: Vec<usize>,
    /// Image barriers recorded before the pass.
    pub before_images: Vec<RgImageBarrier>,
    /// Buffer barriers recorded before the pass.
    pub before_buffers: Vec<RgBufferBarrier>,
    /// Queue-family release image barriers recorded after the pass.
    pub after_images: Vec<RgImageBarrier>,
    /// Queue-family release buffer barriers recorded after the pass.
    pub after_buffers: Vec<RgBufferBarrier>,
}

/// The view of a pass's compiled barriers.
pub struct RgPassBarriersView {
    /// Resolved execution queue.
    pub queue: RgQueueAssignment,
    /// Queue-family index for the selected queue.
    pub queue_family: u32,
    /// Source passes to wait for.
    pub wait_for_passes: Seq<usize>,
    /// Image barriers before the pass.
    pub before_images: Seq<RgImageBarrier>,
    /// Buffer barriers before the pass.
    pub before_buffers: Seq<RgBufferBarrier>,
    /// Image release barriers after the pass.
    pub after_images: Seq<RgImageBarrier>,
    /// Buffer release barriers after the pass.
    pub after_buffers: Seq<RgBufferBarrier>,
}

impl View for RgPassBarriers {
    type V = RgPassBarriersView;

    open spec fn view(&self) -> RgPassBarriersView {
        RgPassBarriersView {
            queue: self.queue,
            queue_family: self.queue_family,
            wait_for_passes: self.wait_for_passes@,
            before_images: self.before_images@,
            before_buffers: self.before_buffers@,
            after_images: self.after_images@,
            after_buffers: self.after_buffers@,
        }
    }
}

/// A release whose source is the previous frame: its barrier runs in a prologue batch on the
/// source queue, ahead of the destination pass.
#[derive(Clone, Copy, Debug, PartialEq, Eq)]
pub struct RgEntryRelease {
    /// The pass that acquires.
    pub destination_pass: usize,
    /// The family that owned the resource.
    pub source_family: u32,
    /// The queue identity that last used the resource.
    pub source_queue: RgQueueAssignment,
    /// The release barrier (or none).
    pub barrier: RgQueueReleaseBarrier,
}

/// The views of a compiled schedule.
pub open spec fn spec_schedule(s: Seq<RgPassBarriers>) -> Seq<RgPassBarriersView> {
    s.map_values(|b: RgPassBarriers| b@)
}

/// Routes a pass's releases: a release from a pass of this graph makes the pass wait for its
/// source (once) and appends its barrier after the source pass; a release from the previous
/// frame becomes an entry release.
pub open spec fn spec_distribute(
    schedule: Seq<RgPassBarriersView>,
    entry: Seq<RgEntryRelease>,
    p: int,
    releases: Seq<RgQueueRelease>,
) -> (Seq<RgPassBarriersView>, Seq<RgEntryRelease>)
    decreases releases.len(),
{
    if releases.len() == 0 {
        (schedule, entry)
    } else {
        let (s, e) = spec_distribute(schedule, entry, p, releases.drop_last());
        let rel = releases.last();
        match rel.pass {
            Some(src) => {
                let waits = s[p].wait_for_passes;
                let s1 = s.update(
                    p,
                    RgPassBarriersView {
                        wait_for_passes: if waits.contains(src) {
                            waits
                        } else {
                            waits.push(src)
                        },
                        ..s[p]
                    },
                );
                let s2 = match rel.barrier {
                    RgQueueReleaseBarrier::Image(b) => s1.update(
                        src as int,
                        RgPassBarriersView { after_images: s1[src as int].after_images.push(b), ..s1[src as int] },
                    ),
                    RgQueueReleaseBarrier::Buffer(b) => s1.update(
                        src as int,
                        RgPassBarriersView { after_buffers: s1[src as int].after_buffers.push(b), ..s1[src as int] },
                    ),
                    RgQueueReleaseBarrier::Dependency => s1,
                };
                (s2, e)
            },
            None => (
                s,
                e.push(
                    RgEntryRelease {
                        destination_pass: p as usize,
                        source_family: rel.source_family,
                        source_queue: rel.source_queue,
                        barrier: rel.barrier,
                    },
                ),
            ),
        }
    }
}

/// The compilation state after a prefix of the passes.
pub struct RgCompiled {
    /// The resource table.
    pub table: Seq<RgResourceView>,
    /// Per-pass barriers and assignments (all passes; later ones not yet filled).
    pub schedule: Seq<RgPassBarriersView>,
    /// Releases whose source is the previous frame.
    pub entry: Seq<RgEntryRelease>,
}

/// The schedule before any pass is derived: every pass's resolved queue, no barriers.
pub open spec fn spec_initial_schedule(g: RenderGraph, families: RgQueueFamilies) -> Seq<RgPassBarriersView> {
    Seq::new(
        g.passes@.len(),
        |i: int| {
            let (queue, queue_family) = spec_resolve_queue(g, g.passes@[i], i, families);
            RgPassBarriersView {
                queue,
                queue_family,
                wait_for_passes: Seq::empty(),
                before_images: Seq::empty(),
                before_buffers: Seq::empty(),
                after_images: Seq::empty(),
                after_buffers: Seq::empty(),
            }
        },
    )
}

/// Compiles the first `upto` passes in order: each pass's barriers are derived against the
/// table the previous passes left, on its resolved queue, and its releases are routed.
pub open spec fn spec_compile(g: RenderGraph, families: RgQueueFamilies, upto: int) -> RgCompiled
    decreases upto,
{
    if upto <= 0 {
        RgCompiled {
            table: spec_table(g.resources@),
            schedule: spec_initial_schedule(g, families),
            entry: Seq::empty(),
        }
    } else {
        let prev = spec_compile(g, families, upto - 1);
        let p = upto - 1;
        let (queue, queue_family) = spec_resolve_queue(g, g.passes@[p], p, families);
        let d = spec_derive_targets(prev.table, spec_pass_targets(g.passes@[p]), p as usize, queue, queue_family);
        let s1 = prev.schedule.update(
            p,
            RgPassBarriersView { before_images: d.image, before_buffers: d.buffer, ..prev.schedule[p] },
        );
        let (s2, e2) = spec_distribute(s1, prev.entry, p, d.releases);
        RgCompiled { table: d.table, schedule: s2, entry: e2 }
    }
}

/// Every pass a table names (an image's last pass, a tracked byte range's last pass) is below
/// `n`.
pub open spec fn spec_refs_below(table: Seq<RgResourceView>, n: int) -> bool {
    forall|i: int| 0 <= i < table.len() ==> {
        &&& ((#[trigger] table[i]).last_pass matches Some(s) ==> s < n)
        &&& forall|j: int| 0 <= j < table[i].buffer_accesses.len() ==>
            ((#[trigger] table[i].buffer_accesses[j]).last_pass matches Some(s) ==> s < n)
    }
}

/// Every pass a run of releases names is below `n`.
pub open spec fn spec_release_refs_below(releases: Seq<RgQueueRelease>, n: int) -> bool {
    forall|k: int| 0 <= k < releases.len() ==> ((#[trigger] releases[k]).pass matches Some(s) ==> s < n)
}

/// Every pass a list of tracked byte ranges names is below `n`.
pub open spec fn spec_access_refs_below(accs: Seq<crate::render_graph::RgBufferAccessState>, n: int) -> bool {
    forall|j: int| 0 <= j < accs.len() ==> ((#[trigger] accs[j]).last_pass matches Some(s) ==> s < n)
}

/// Splitting tracked ranges keeps the passes they name.
pub proof fn lemma_scan_refs(
    prev: Seq<crate::render_graph::RgBufferAccessState>,
    start: u64,
    end: u64,
    queue: RgQueueAssignment,
    queue_family: u32,
    buffer: u64,
    n: int,
)
    requires
        spec_access_refs_below(prev, n),
    ensures
        spec_access_refs_below(crate::render_graph::barriers::spec_scan_retained(prev, start, end), n),
        spec_release_refs_below(crate::render_graph::barriers::spec_scan_releases(prev, start, end, queue, queue_family, buffer), n),
    decreases prev.len(),
{
    if prev.len() > 0 {
        let rest = prev.drop_last();
        assert forall|j: int| 0 <= j < rest.len() implies ((#[trigger] rest[j]).last_pass matches Some(s) ==> s < n) by {
            assert(rest[j] == prev[j]);
        }
        lemma_scan_refs(rest, start, end, queue, queue_family, buffer, n);
        assert(prev.last() == prev[prev.len() - 1]);
        let a = crate::render_graph::barriers::spec_scan_retained(rest, start, end);
        let b = crate::render_graph::barriers::spec_split_retained(prev.last(), start, end);
        assert forall|j: int| 0 <= j < (a + b).len() implies ((#[trigger] (a + b)[j]).last_pass matches Some(s) ==> s < n) by {
            if j < a.len() {
                assert((a + b)[j] == a[j]);
            } else {
                assert((a + b)[j] == b[j - a.len()]);
            }
        }
        let ra = crate::render_graph::barriers::spec_scan_releases(rest, start, end, queue, queue_family, buffer);
        let rb = crate::render_graph::barriers::spec_split_releases(prev.last(), start, end, queue, queue_family, buffer);
        assert forall|k: int| 0 <= k < (ra + rb).len() implies ((#[trigger] (ra + rb)[k]).pass matches Some(s) ==> s < n) by {
            if k < ra.len() {
                assert((ra + rb)[k] == ra[k]);
            } else {
                assert((ra + rb)[k] == rb[k - ra.len()]);
            }
        }
    }
}

/// One access keeps every named pass below `n` when its own pass is.
pub proof fn lemma_access_refs(
    r: RgResourceView,
    info: RgUsageInfo,
    range: Option<RgBufferRange>,
    pass: usize,
    queue: RgQueueAssignment,
    queue_family: u32,
    n: int,
)
    requires
        pass < n,
        r.last_pass matches Some(s) ==> s < n,
        spec_access_refs_below(r.buffer_accesses, n),
    ensures
        spec_access_after(r, info, range, pass, queue, queue_family).last_pass matches Some(s) ==> s < n,
        spec_access_refs_below(spec_access_after(r, info, range, pass, queue, queue_family).buffer_accesses, n),
        spec_release_refs_below(spec_access_releases(r, info, range, queue, queue_family), n),
{
    if !r.is_image {
        let (start, end) = crate::render_graph::barriers::spec_range_bounds(r.buffer_size, range);
        lemma_scan_refs(r.buffer_accesses, start, end, queue, queue_family, r.buffer, n);
        let ret = crate::render_graph::barriers::spec_scan_retained(r.buffer_accesses, start, end);
        let nb = crate::render_graph::barriers::spec_new_buffer_access(r.buffer_accesses, start, end, info, pass, queue, queue_family);
        assert forall|j: int| 0 <= j < ret.push(nb).len() implies ((#[trigger] ret.push(nb)[j]).last_pass matches Some(s) ==> s < n) by {
            if j < ret.len() {
                assert(ret.push(nb)[j] == ret[j]);
            }
        }
    } else {
        let rel = crate::render_graph::barriers::spec_image_releases(r, info, queue, queue_family);
        assert forall|k: int| 0 <= k < rel.len() implies ((#[trigger] rel[k]).pass matches Some(s) ==> s < n) by {}
    }
}

/// Deriving a run of accesses keeps every named pass below `n`, and its releases name only
/// passes below `n`.
pub proof fn lemma_derive_refs(
    table: Seq<RgResourceView>,
    targets: Seq<RgTarget>,
    pass: usize,
    queue: RgQueueAssignment,
    queue_family: u32,
    n: int,
)
    requires
        pass < n,
        spec_refs_below(table, n),
        spec_targets_wf(table, targets),
        spec_table_owners(table),
    ensures
        spec_refs_below(spec_derive_targets(table, targets, pass, queue, queue_family).table, n),
        spec_release_refs_below(spec_derive_targets(table, targets, pass, queue, queue_family).releases, n),
    decreases targets.len(),
{
    if targets.len() > 0 {
        let rest = targets.drop_last();
        assert forall|k: int| 0 <= k < rest.len() implies {
            &&& (#[trigger] rest[k]).resource.index < table.len()
            &&& spec_access_allowed(table[rest[k].resource.index as int], rest[k].range)
        } by {
            assert(rest[k] == targets[k]);
        }
        lemma_derive_refs(table, rest, pass, queue, queue_family, n);
        lemma_derive_keeps_shape(table, rest, pass, queue, queue_family);
        let prev = spec_derive_targets(table, rest, pass, queue, queue_family);
        let t = targets.last();
        assert(t == targets[targets.len() - 1]);
        let idx = t.resource.index as int;
        let r = prev.table[idx];
        let info = spec_usage_info(t.usage);
        assert(r.last_pass matches Some(s) ==> s < n);
        assert(spec_access_refs_below(r.buffer_accesses, n)) by {
            assert forall|j: int| 0 <= j < r.buffer_accesses.len() implies ((#[trigger] r.buffer_accesses[j]).last_pass matches Some(s) ==> s < n) by {
                assert(prev.table[idx].buffer_accesses[j] == r.buffer_accesses[j]);
            }
        }
        lemma_access_refs(r, info, t.range, pass, queue, queue_family, n);
        let cur = spec_derive_targets(table, targets, pass, queue, queue_family);
        assert(targets.drop_last() == rest);
        let after = spec_access_after(r, info, t.range, pass, queue, queue_family);
        assert(cur.table == prev.table.update(idx, after));
        assert forall|i: int| 0 <= i < cur.table.len() implies {
            &&& ((#[trigger] cur.table[i]).last_pass matches Some(s) ==> s < n)
            &&& forall|j: int| 0 <= j < cur.table[i].buffer_accesses.len() ==>
                ((#[trigger] cur.table[i].buffer_accesses[j]).last_pass matches Some(s) ==> s < n)
        } by {
            if i == idx {
                assert(cur.table[i] == after);
            } else {
                assert(cur.table[i] == prev.table[i]);
            }
        }
        let ra = prev.releases;
        let rb = spec_access_releases(r, info, t.range, queue, queue_family);
        assert(cur.releases == ra + rb);
        assert forall|k: int| 0 <= k < (ra + rb).len() implies ((#[trigger] (ra + rb)[k]).pass matches Some(s) ==> s < n) by {
            if k < ra.len() {
                assert((ra + rb)[k] == ra[k]);
            } else {
                assert((ra + rb)[k] == rb[k - ra.len()]);
            }
        }
    }
}

/// A pass well formed against a table stays well formed against a table of the same shape.
pub proof fn lemma_pass_wf_transfers(table0: Seq<RgResourceView>, cur: Seq<RgResourceView>, pass: RgPass)
    requires
        spec_same_shape(table0, cur),
        spec_pass_wf(table0, pass),
    ensures
        spec_pass_wf(cur, pass),
{
    assert forall|k: int| 0 <= k < pass.accesses@.len() implies spec_access_wf(cur, #[trigger] pass.accesses@[k]) by {
        assert(spec_access_wf(table0, pass.accesses@[k]));
        let idx = pass.accesses@[k].resource.index as int;
        assert(cur[idx].is_image == table0[idx].is_image);
    }
    assert forall|k: int| 0 <= k < pass.colors@.len() implies spec_attachment_wf(cur, #[trigger] pass.colors@[k]) by {
        assert(spec_attachment_wf(table0, pass.colors@[k]));
        let idx = pass.colors@[k].resource.index as int;
        assert(cur[idx].is_image == table0[idx].is_image);
        if let Some(res) = pass.colors@[k].resolve {
            assert(cur[res.index as int].is_image == table0[res.index as int].is_image);
        }
    }
    if let Some(d) = pass.depth {
        assert(spec_attachment_wf(table0, d));
        assert(cur[d.resource.index as int].is_image == table0[d.resource.index as int].is_image);
        if let Some(res) = d.resolve {
            assert(cur[res.index as int].is_image == table0[res.index as int].is_image);
        }
    }
}

/// Routing one more release.
pub proof fn lemma_distribute_push(
    schedule: Seq<RgPassBarriersView>,
    entry: Seq<RgEntryRelease>,
    p: int,
    releases: Seq<RgQueueRelease>,
    j: int,
)
    requires
        0 <= j < releases.len(),
    ensures
        spec_distribute(schedule, entry, p, releases.take(j + 1)) == ({
            let (s, e) = spec_distribute(schedule, entry, p, releases.take(j));
            let rel = releases[j];
            match rel.pass {
                Some(src) => {
                    let waits = s[p].wait_for_passes;
                    let s1 = s.update(
                        p,
                        RgPassBarriersView {
                            wait_for_passes: if waits.contains(src) {
                                waits
                            } else {
                                waits.push(src)
                            },
                            ..s[p]
                        },
                    );
                    let s2 = match rel.barrier {
                        RgQueueReleaseBarrier::Image(b) => s1.update(
                            src as int,
                            RgPassBarriersView { after_images: s1[src as int].after_images.push(b), ..s1[src as int] },
                        ),
                        RgQueueReleaseBarrier::Buffer(b) => s1.update(
                            src as int,
                            RgPassBarriersView { after_buffers: s1[src as int].after_buffers.push(b), ..s1[src as int] },
                        ),
                        RgQueueReleaseBarrier::Dependency => s1,
                    };
                    (s2, e)
                },
                None => (
                    s,
                    e.push(
                        RgEntryRelease {
                            destination_pass: p as usize,
                            source_family: rel.source_family,
                            source_queue: rel.source_queue,
                            barrier: rel.barrier,
                        },
                    ),
                ),
            }
        }),
{
    assert(releases.take(j + 1).drop_last() =~= releases.take(j));
    assert(releases.take(j + 1).last() == releases[j]);
}

/// Adds a source pass to wait for, once.
fn add_wait(pb: &mut RgPassBarriers, src: usize)
    ensures
        final(pb)@ == (RgPassBarriersView {
            wait_for_passes: if old(pb)@.wait_for_passes.contains(src) {
                old(pb)@.wait_for_passes
            } else {
                old(pb)@.wait_for_passes.push(src)
            },
            ..old(pb)@
        }),
{
    let mut i: usize = 0;
    while i < pb.wait_for_passes.len()
        invariant
            i <= pb.wait_for_passes@.len(),
            *pb == *old(pb),
            forall|k: int| 0 <= k < i ==> pb.wait_for_passes@[k] != src,
        decreases pb.wait_for_passes.len() - i,
    {
        if pb.wait_for_passes[i] == src {
            assert(pb.wait_for_passes@[i as int] == src);
            return ;
        }
        i = i + 1;
    }
    pb.wait_for_passes.push(src);
}

/// Appends an image release barrier after the pass.
fn push_after_image(pb: &mut RgPassBarriers, b: RgImageBarrier)
    ensures
        final(pb)@ == (RgPassBarriersView { after_images: old(pb)@.after_images.push(b), ..old(pb)@ }),
{
    pb.after_images.push(b);
}

/// Appends a buffer release barrier after the pass.
fn push_after_buffer(pb: &mut RgPassBarriers, b: RgBufferBarrier)
    ensures
        final(pb)@ == (RgPassBarriersView { after_buffers: old(pb)@.after_buffers.push(b), ..old(pb)@ }),
{
    pb.after_buffers.push(b);
}

/// Sets the barriers recorded before the pass.
fn set_before(pb: &mut RgPassBarriers, images: Vec<RgImageBarrier>, buffers: Vec<RgBufferBarrier>)
    ensures
        final(pb)@ == (RgPassBarriersView { before_images: images@, before_buffers: buffers@, ..old(pb)@ }),
{
    pb.before_images = images;
    pb.before_buffers = buffers;
}

/// Routes a pass's releases into the schedule and the entry releases.
fn distribute(
    schedule: &mut Vec<RgPassBarriers>,
    entry: &mut Vec<RgEntryRelease>,
    pass_index: usize,
    releases: &Vec<RgQueueRelease>,
)
    requires
        pass_index < old(schedule)@.len(),
        spec_release_refs_below(releases@, old(schedule)@.len() as int),
    ensures
        final(schedule)@.len() == old(schedule)@.len(),
        (spec_schedule(final(schedule)@), final(entry)@) == spec_distribute(
            spec_schedule(old(schedule)@),
            old(entry)@,
            pass_index as int,
            releases@,
        ),
{
    let ghost s0 = spec_schedule(schedule@);
    let ghost e0 = entry@;
    let mut j: usize = 0;
    assert(releases@.take(0) =~= Seq::<RgQueueRelease>::empty());
    while j < releases.len()
        invariant
            j <= releases@.len(),
            pass_index < schedule@.len(),
            schedule@.len() == old(schedule)@.len(),
            spec_release_refs_below(releases@, schedule@.len() as int),
            (spec_schedule(schedule@), entry@) == spec_distribute(s0, e0, pass_index as int, releases@.take(j as int)),
        decreases releases.len() - j,
    {
        let rel = releases[j];
        proof {
            lemma_distribute_push(s0, e0, pass_index as int, releases@, j as int);
            assert(releases@[j as int] == rel);
        }
        match rel.pass {
            Some(src) => {
                add_wait(&mut schedule[pass_index], src);
                match rel.barrier {
                    RgQueueReleaseBarrier::Image(b) => {
                        push_after_image(&mut schedule[src], b);
                    },
                    RgQueueReleaseBarrier::Buffer(b) => {
                        push_after_buffer(&mut schedule[src], b);
                    },
                    RgQueueReleaseBarrier::Dependency => {},
                }
            },
            None => {
                entry.push(
                    RgEntryRelease {
                        destination_pass: pass_index,
                        source_family: rel.source_family,
                        source_queue: rel.source_queue,
                        barrier: rel.barrier,
                    },
                );
            },
        }
        proof {
            let (s, e) = spec_distribute(s0, e0, pass_index as int, releases@.take(j as int + 1));
            assert(spec_schedule(schedule@) =~= s);
        }
        j = j + 1;
    }
    assert(releases@.take(j as int) =~= releases@);
}

impl RenderGraph {
    /// Compiles pass-local synchronization and queue ownership for a queue topology: every
    /// pass's queue, the barriers before it, the release barriers after it, the passes it waits
    /// for, the exit resource table, and the releases whose source is the previous frame. The
    /// graph is left untouched.
    pub fn compile_barriers(&self, families: RgQueueFamilies) -> (r: (Vec<RgPassBarriers>, Vec<RgResourceState>, Vec<RgEntryRelease>))
        requires
            spec_graph_wf(*self),
            spec_refs_below(spec_table(self.resources@), self.passes@.len() as int),
        ensures
            ({
                let c = spec_compile(*self, families, self.passes@.len() as int);
                &&& spec_schedule(r.0@) == c.schedule
                &&& spec_table(r.1@) == c.table
                &&& r.2@ == c.entry
            }),
    {
        let n = self.passes.len();
        let ghost table0 = spec_table(self.resources@);
        let mut resources: Vec<RgResourceState> = Vec::new();
        let mut i: usize = 0;
        while i < self.resources.len()
            invariant
                i <= self.resources@.len(),
                resources@.len() == i,
                forall|k: int| 0 <= k < i ==> (#[trigger] resources@[k])@ == self.resources@[k]@,
            decreases self.resources.len() - i,
        {
            let c = self.resources[i].copy();
            resources.push(c);
            i = i + 1;
        }
        assert(spec_table(resources@) =~= spec_table(self.resources@));
        let mut schedule: Vec<RgPassBarriers> = Vec::new();
        let mut p: usize = 0;
        while p < n
            invariant
                p <= n,
                n == self.passes@.len(),
                spec_graph_wf(*self),
                schedule@.len() == p,
                forall|k: int| 0 <= k < p ==> (#[trigger] schedule@[k])@ == spec_initial_schedule(*self, families)[k],
            decreases n - p,
        {
            let (queue, queue_family) = self.resolve_queue(&self.passes[p], p, families);
            schedule.push(
                RgPassBarriers {
                    queue,
                    queue_family,
                    wait_for_passes: Vec::new(),
                    before_images: Vec::new(),
                    before_buffers: Vec::new(),
                    after_images: Vec::new(),
                    after_buffers: Vec::new(),
                },
            );
            proof {
                assert(schedule@[p as int]@.wait_for_passes =~= Seq::<usize>::empty());
                assert(schedule@[p as int]@.before_images =~= Seq::<RgImageBarrier>::empty());
                assert(schedule@[p as int]@.before_buffers =~= Seq::<RgBufferBarrier>::empty());
                assert(schedule@[p as int]@.after_images =~= Seq::<RgImageBarrier>::empty());
                assert(schedule@[p as int]@.after_buffers =~= Seq::<RgBufferBarrier>::empty());
                assert(schedule@[p as int]@ == spec_initial_schedule(*self, families)[p as int]);
            }
            p = p + 1;
        }
        assert(spec_schedule(schedule@) =~= spec_initial_schedule(*self, families));
        let mut entry: Vec<RgEntryRelease> = Vec::new();
        let mut pass_index: usize = 0;
        while pass_index < n
            invariant
                pass_index <= n,
                n == self.passes@.len(),
                spec_graph_wf(*self),
                table0 == spec_table(self.resources@),
                spec_refs_below(table0, n as int),
                schedule@.len() == n,
                spec_same_shape(table0, spec_table(resources@)),
                spec_table_owners(spec_table(resources@)),
                spec_refs_below(spec_table(resources@), n as int),
                ({
                    let c = spec_compile(*self, families, pass_index as int);
                    &&& spec_schedule(schedule@) == c.schedule
                    &&& spec_table(resources@) == c.table
                    &&& entry@ == c.entry
                }),
            decreases n - pass_index,
        {
            let queue = schedule[pass_index].queue;
            let queue_family = schedule[pass_index].queue_family;
            proof {
                assert(spec_pass_wf(table0, self.passes@[pass_index as int]));
                lemma_pass_wf_transfers(table0, spec_table(resources@), self.passes@[pass_index as int]);
                lemma_compile_queue(*self, families, pass_index as int);
            }
            let DerivedBarriers { image, buffer, releases } = derive_pass_barriers_for(
                &mut resources,
                &self.passes[pass_index],
                pass_index,
                queue,
                queue_family,
            );
            set_before(&mut schedule[pass_index], image, buffer);
            proof {
                let prev = spec_compile(*self, families, pass_index as int);
                let d = spec_derive_targets(prev.table, spec_pass_targets(self.passes@[pass_index as int]), pass_index, queue, queue_family);
                let s1 = prev.schedule.update(
                    pass_index as int,
                    RgPassBarriersView { before_images: d.image, before_buffers: d.buffer, ..prev.schedule[pass_index as int] },
                );
                assert(spec_schedule(schedule@) =~= s1);
            }
            distribute(&mut schedule, &mut entry, pass_index, &releases);
            pass_index = pass_index + 1;
        }
        (schedule, resources, entry)
    }
}

/// Every pass's wait list names passes of the schedule, each once.
pub open spec fn spec_waits_wf(schedule: Seq<RgPassBarriersView>) -> bool {
    forall|k: int| 0 <= k < schedule.len() ==> {
        &&& (#[trigger] schedule[k]).wait_for_passes.no_duplicates()
        &&& forall|j: int| 0 <= j < schedule[k].wait_for_passes.len() ==> schedule[k].wait_for_passes[j] < schedule.len()
    }
}

/// Routing releases changes no pass's queue, family or before-barriers, nor the schedule's
/// length.
pub proof fn lemma_distribute_keeps(
    schedule: Seq<RgPassBarriersView>,
    entry: Seq<RgEntryRelease>,
    p: int,
    releases: Seq<RgQueueRelease>,
)
    requires
        0 <= p < schedule.len(),
        spec_release_refs_below(releases, schedule.len() as int),
        spec_waits_wf(schedule),
    ensures
        spec_waits_wf(spec_distribute(schedule, entry, p, releases).0),
        ({
            let s = spec_distribute(schedule, entry, p, releases).0;
            &&& s.len() == schedule.len()
            &&& forall|k: int| 0 <= k < s.len() ==> {
                &&& (#[trigger] s[k]).queue == schedule[k].queue
                &&& s[k].queue_family == schedule[k].queue_family
                &&& s[k].before_images == schedule[k].before_images
                &&& s[k].before_buffers == schedule[k].before_buffers
            }
        }),
    decreases releases.len(),
{
    if releases.len() > 0 {
        let rest = releases.drop_last();
        assert forall|k: int| 0 <= k < rest.len() implies ((#[trigger] rest[k]).pass matches Some(s) ==> s < schedule.len()) by {
            assert(rest[k] == releases[k]);
        }
        assert(releases.last() == releases[releases.len() - 1]);
        lemma_distribute_keeps(schedule, entry, p, rest);
    }
}

/// Compiling a prefix of the passes keeps every pass's resolved queue and family and the
/// schedule's length.
pub proof fn lemma_compile_queue(g: RenderGraph, families: RgQueueFamilies, upto: int)
    requires
        spec_graph_wf(g),
        spec_refs_below(spec_table(g.resources@), g.passes@.len() as int),
        0 <= upto <= g.passes@.len(),
    ensures
        ({
            let c = spec_compile(g, families, upto);
            &&& c.schedule.len() == g.passes@.len()
            &&& forall|k: int| 0 <= k < c.schedule.len() ==> {
                &&& (#[trigger] c.schedule[k]).queue == spec_resolve_queue(g, g.passes@[k], k, families).0
                &&& c.schedule[k].queue_family == spec_resolve_queue(g, g.passes@[k], k, families).1
            }
            &&& spec_same_shape(spec_table(g.resources@), c.table)
            &&& spec_table_owners(c.table)
            &&& spec_refs_below(c.table, g.passes@.len() as int)
            &&& spec_waits_wf(c.schedule)
        }),
    decreases upto,
{
    let table0 = spec_table(g.resources@);
    let n = g.passes@.len() as int;
    if upto > 0 {
        lemma_compile_queue(g, families, upto - 1);
        let prev = spec_compile(g, families, upto - 1);
        let p = upto - 1;
        let (queue, queue_family) = spec_resolve_queue(g, g.passes@[p], p, families);
        assert(spec_pass_wf(table0, g.passes@[p]));
        lemma_pass_wf_transfers(table0, prev.table, g.passes@[p]);
        lemma_pass_targets_wf(prev.table, g.passes@[p]);
        let targets = spec_pass_targets(g.passes@[p]);
        lemma_derive_keeps_shape(prev.table, targets, p as usize, queue, queue_family);
        lemma_derive_refs(prev.table, targets, p as usize, queue, queue_family, n);
        let d = spec_derive_targets(prev.table, targets, p as usize, queue, queue_family);
        let s1 = prev.schedule.update(
            p,
            RgPassBarriersView { before_images: d.image, before_buffers: d.buffer, ..prev.schedule[p] },
        );
        lemma_distribute_keeps(s1, prev.entry, p, d.releases);
        let c = spec_compile(g, families, upto);
        assert forall|k: int| 0 <= k < c.schedule.len() implies {
            &&& (#[trigger] c.schedule[k]).queue == spec_resolve_queue(g, g.passes@[k], k, families).0
            &&& c.schedule[k].queue_family == spec_resolve_queue(g, g.passes@[k], k, families).1
        } by {
            assert(c.schedule[k].queue == s1[k].queue);
        }
        assert(spec_same_shape(table0, c.table));
    } else {
        assert(spec_same_shape(table0, table0));
    }
}

/// A pass well formed against a table performs only accesses the table allows.
pub proof fn lemma_pass_targets_wf(table: Seq<RgResourceView>, pass: RgPass)
    requires
        spec_pass_wf(table, pass),
        spec_table_owners(table),
    ensures
        spec_targets_wf(table, spec_pass_targets(pass)),
{
    let a = spec_access_targets(pass.accesses@);
    assert forall|k: int| 0 <= k < a.len() implies {
        &&& (#[trigger] a[k]).resource.index < table.len()
        &&& spec_access_allowed(table[a[k].resource.index as int], a[k].range)
    } by {
        assert(spec_access_wf(table, pass.accesses@[k]));
    }
    lemma_color_targets_wf(table, pass.colors@);
    let c = spec_color_targets(pass.colors@);
    let d = match pass.depth {
        Some(d) => spec_attachment_targets(d, RgUsage::DepthWrite),
        None => Seq::empty(),
    };
    assert forall|k: int| 0 <= k < d.len() implies {
        &&& (#[trigger] d[k]).resource.index < table.len()
        &&& spec_access_allowed(table[d[k].resource.index as int], d[k].range)
    } by {
        let dd = pass.depth.unwrap();
        assert(spec_attachment_wf(table, dd));
    }
    let all = a + c + d;
    assert(all == spec_pass_targets(pass));
    assert forall|k: int| 0 <= k < all.len() implies {
        &&& (#[trigger] all[k]).resource.index < table.len()
        &&& spec_access_allowed(table[all[k].resource.index as int], all[k].range)
    } by {
        if k < a.len() {
            assert(all[k] == a[k]);
        } else if k < a.len() + c.len() {
            assert(all[k] == c[k - a.len()]);
        } else {
            assert(all[k] == d[k - a.len() - c.len()]);
        }
    }
}

/// Color attachments well formed against a table perform only writes it allows.
pub proof fn lemma_color_targets_wf(table: Seq<RgResourceView>, colors: Seq<RgAttachment>)
    requires
        forall|k: int| 0 <= k < colors.len() ==> spec_attachment_wf(table, #[trigger] colors[k]),
        spec_table_owners(table),
    ensures
        spec_targets_wf(table, spec_color_targets(colors)),
    decreases colors.len(),
{
    if colors.len() > 0 {
        let rest = colors.drop_last();
        assert forall|k: int| 0 <= k < rest.len() implies spec_attachment_wf(table, #[trigger] rest[k]) by {
            assert(rest[k] == colors[k]);
        }
        lemma_color_targets_wf(table, rest);
        let a = spec_color_targets(rest);
        let att = colors.last();
        assert(spec_attachment_wf(table, colors[colors.len() - 1]));
        let b = spec_attachment_targets(att, RgUsage::ColorWrite);
        assert forall|k: int| 0 <= k < (a + b).len() implies {
            &&& (#[trigger] (a + b)[k]).resource.index < table.len()
            &&& spec_access_allowed(table[(a + b)[k].resource.index as int], (a + b)[k].range)
        } by {
            if k < a.len() {
                assert((a + b)[k] == a[k]);
            } else {
                assert((a + b)[k] == b[k - a.len()]);
            }
        }
    }
}

// ---------------------------------------------------------------------------------------------
// Batching.

/// One contiguous run of passes recorded into a single queue command buffer. A synthetic
/// prologue batch (no passes of its own) records the ownership releases whose source is the
/// previous frame.
pub struct RgPassBatch {
    /// Selected queue.
    pub queue: RgQueueAssignment,
    /// Half-open pass-index range in declaration order.
    pub passes: std::ops::Range<usize>,
    /// Earlier batches on the other queue that must signal before this batch executes.
    pub wait_for_batches: Vec<usize>,
    /// Entry ownership-release image barriers recorded by this batch.
    pub entry_release_images: Vec<RgImageBarrier>,
    /// Entry ownership-release buffer barriers recorded by this batch.
    pub entry_release_buffers: Vec<RgBufferBarrier>,
}

/// Immutable queue/batch/barrier compilation for one graph instance.
pub struct RgSubmissionPlan {
    /// Pass-local barriers and assignments.
    pub passes: Vec<RgPassBarriers>,
    /// Contiguous command-buffer batches.
    pub batches: Vec<RgPassBatch>,
    /// The resource table after every pass, written back to the external slots on recording.
    pub exit_resources: Vec<RgResourceState>,
}

/// Whether a pass's per-pass pipeline-statistics query is recorded on a queue: only graphics
/// queues count pipeline statistics.
pub fn records_pipeline_statistics(queue: RgQueueAssignment) -> (r: bool)
    ensures
        r == (queue == RgQueueAssignment::Graphics),
{
    queue == RgQueueAssignment::Graphics
}

/// The number of batches on `queue`.
pub open spec fn spec_count_batches(batches: Seq<RgPassBatch>, queue: RgQueueAssignment) -> nat
    decreases batches.len(),
{
    if batches.len() == 0 {
        0
    } else {
        spec_count_batches(batches.drop_last(), queue) + if batches.last().queue == queue {
            1nat
        } else {
            0nat
        }
    }
}

/// Each queue's batch count adds up to the number of batches.
pub proof fn lemma_batch_counts_sum(batches: Seq<RgPassBatch>)
    ensures
        spec_count_batches(batches, RgQueueAssignment::Graphics) + spec_count_batches(
            batches,
            RgQueueAssignment::AsyncCompute,
        ) == batches.len(),
    decreases batches.len(),
{
    if batches.len() > 0 {
        lemma_batch_counts_sum(batches.drop_last());
    }
}

fn count_batches(batches: &Vec<RgPassBatch>, queue: RgQueueAssignment) -> (r: usize)
    ensures
        r == spec_count_batches(batches@, queue),
{
    let mut count: usize = 0;
    let mut i: usize = 0;
    while i < batches.len()
        invariant
            i <= batches@.len(),
            count == spec_count_batches(batches@.take(i as int), queue),
            count <= i,
        decreases batches.len() - i,
    {
        assert(batches@.take(i as int + 1).drop_last() =~= batches@.take(i as int));
        if batches[i].queue == queue {
            count = count + 1;
        }
        i = i + 1;
    }
    assert(batches@.take(i as int) =~= batches@);
    count
}

impl RgSubmissionPlan {
    /// Number of graphics command buffers required to record this plan.
    pub fn graphics_batch_count(&self) -> (r: usize)
        ensures
            r == spec_count_batches(self.batches@, RgQueueAssignment::Graphics),
    {
        count_batches(&self.batches, RgQueueAssignment::Graphics)
    }

    /// Number of compute command buffers required to record this plan.
    pub fn compute_batch_count(&self) -> (r: usize)
        ensures
            r == spec_count_batches(self.batches@, RgQueueAssignment::AsyncCompute),
    {
        count_batches(&self.batches, RgQueueAssignment::AsyncCompute)
    }
}

/// Every entry release's persisted queue identity maps to its persisted family on the topology.
pub open spec fn spec_entry_consistent(entry: Seq<RgEntryRelease>, families: RgQueueFamilies) -> bool {
    forall|k: int| 0 <= k < entry.len() ==> spec_queue_family(families, (#[trigger] entry[k]).source_queue)
        == Some(entry[k].source_family)
}

/// Batches laid end to end over `n` passes: each a half-open range, the first starting at pass
/// 0, each starting where the previous ends, the last ending at `n`; consecutive batches on
/// different queues.
pub open spec fn spec_batches_chain(batches: Seq<RgPassBatch>, n: int) -> bool {
    &&& (batches.len() == 0 ==> n == 0)
    &&& (batches.len() > 0 ==> batches[0].passes.start == 0 && batches.last().passes.end == n)
    &&& forall|i: int| 0 <= i < batches.len() ==> (#[trigger] batches[i]).passes.start <= batches[i].passes.end
    &&& forall|i: int, j: int| #![trigger batches[i], batches[j]] 0 <= i && j == i + 1 && j < batches.len()
        ==> batches[j].passes.start == batches[i].passes.end && batches[j].queue != batches[i].queue
}

/// The batch that records pass `p`.
pub open spec fn spec_in_batch(batches: Seq<RgPassBatch>, b: int, p: int) -> bool {
    0 <= b < batches.len() && batches[b].passes.start <= p < batches[b].passes.end
}

impl RenderGraph {
    /// Compiles pass-local synchronization and queue ownership for a queue topology (see
    /// [`RenderGraph::compile_barriers`]), leaving the graph untouched.
    pub fn barrier_schedule(&self, families: RgQueueFamilies) -> (r: Vec<RgPassBarriers>)
        requires
            spec_graph_wf(*self),
            spec_refs_below(spec_table(self.resources@), self.passes@.len() as int),
        ensures
            spec_schedule(r@) == spec_compile(*self, families, self.passes@.len() as int).schedule,
    {
        let (schedule, _, _) = self.compile_barriers(families);
        schedule
    }

    /// Whether every release whose source is the previous frame names a queue identity that
    /// the topology maps to the family it recorded.
    pub fn entry_releases_consistent(&self, families: RgQueueFamilies) -> (r: bool)
        requires
            spec_graph_wf(*self),
            spec_refs_below(spec_table(self.resources@), self.passes@.len() as int),
        ensures
            r == spec_entry_consistent(spec_compile(*self, families, self.passes@.len() as int).entry, families),
    {
        let (_, _, entry) = self.compile_barriers(families);
        let ghost c = spec_compile(*self, families, self.passes@.len() as int).entry;
        let mut i: usize = 0;
        while i < entry.len()
            invariant
                i <= entry@.len(),
                entry@ == c,
                c == spec_compile(*self, families, self.passes@.len() as int).entry,
                forall|k: int| 0 <= k < i ==> spec_queue_family(families, (#[trigger] entry@[k]).source_queue)
                    == Some(entry@[k].source_family),
            decreases entry.len() - i,
        {
            let e = entry[i];
            assert(entry@[i as int] == e);
            match families.family(e.source_queue) {
                Some(f) => {
                    if f != e.source_family {
                        assert(!spec_entry_consistent(c, families)) by {
                            assert(spec_queue_family(families, c[i as int].source_queue) != Some(c[i as int].source_family));
                        }
                        return false;
                    }
                },
                None => {
                    assert(!spec_entry_consistent(c, families)) by {
                        assert(spec_queue_family(families, c[i as int].source_queue) != Some(c[i as int].source_family));
                    }
                    return false;
                },
            }
            i = i + 1;
        }
        true
    }
}

/// Two batch lists with the same queues and pass ranges.
pub open spec fn spec_same_layout(a: Seq<RgPassBatch>, b: Seq<RgPassBatch>) -> bool {
    &&& a.len() == b.len()
    &&& forall|i: int| 0 <= i < a.len() ==> (#[trigger] b[i]).queue == a[i].queue && b[i].passes == a[i].passes
}

/// Every batch's waits name batches of the plan, each once.
pub open spec fn spec_batch_waits_wf(batches: Seq<RgPassBatch>) -> bool {
    forall|i: int| 0 <= i < batches.len() ==> {
        &&& (#[trigger] batches[i]).wait_for_batches@.no_duplicates()
        &&& forall|j: int| 0 <= j < batches[i].wait_for_batches@.len() ==> batches[i].wait_for_batches@[j] < batches.len()
    }
}

/// Every batch waits only for batches before it, so a submission in plan order never waits on
/// a batch it has not reached.
pub open spec fn spec_batch_waits_backward(batches: Seq<RgPassBatch>) -> bool {
    forall|i: int, j: int| 0 <= i < batches.len() && 0 <= j < batches[i].wait_for_batches@.len()
        ==> #[trigger] batches[i].wait_for_batches@[j] < i
}

/// Adding an earlier batch to one batch's waits keeps every batch waiting only for earlier
/// batches.
pub proof fn lemma_backward_step(a: Seq<RgPassBatch>, b: Seq<RgPassBatch>, i: int, w: usize)
    requires
        spec_batch_waits_backward(a),
        a.len() == b.len(),
        0 <= i < a.len(),
        forall|k: int| 0 <= k < a.len() && k != i ==> (#[trigger] b[k]).wait_for_batches@ == a[k].wait_for_batches@,
        b[i].wait_for_batches@ == a[i].wait_for_batches@ || (w < i && b[i].wait_for_batches@ == a[i].wait_for_batches@.push(w)),
    ensures
        spec_batch_waits_backward(b),
{
    assert forall|k: int, j: int| 0 <= k < b.len() && 0 <= j < b[k].wait_for_batches@.len()
        implies #[trigger] b[k].wait_for_batches@[j] < k by {
        if k != i || b[i].wait_for_batches@ == a[i].wait_for_batches@ {
            assert(b[k].wait_for_batches@ == a[k].wait_for_batches@);
            assert(a[k].wait_for_batches@[j] < k);
        } else if j < a[i].wait_for_batches@.len() {
            assert(b[k].wait_for_batches@[j] == a[k].wait_for_batches@[j]);
            assert(a[k].wait_for_batches@[j] < k);
        }
    }
}

/// Every pass recorded by a batch is recorded on the queue it resolved to.
pub open spec fn spec_batches_on_queues(batches: Seq<RgPassBatch>, schedule: Seq<RgPassBarriersView>) -> bool {
    forall|b: int, p: int| spec_in_batch(batches, b, p) ==> #[trigger] batches[b].queue == #[trigger] schedule[p].queue
}

/// An entry release is recorded by a prologue batch on its source queue that the destination
/// pass's batch waits for.
pub open spec fn spec_entry_placed(batches: Seq<RgPassBatch>, e: RgEntryRelease, dest_batch: int) -> bool {
    exists|b: int| {
        &&& 0 <= b < batches.len()
        &&& #[trigger] batches[b].queue == e.source_queue
        &&& batches[b].passes.start == 0
        &&& (e.barrier matches RgQueueReleaseBarrier::Image(x) ==> batches[b].entry_release_images@.contains(x))
        &&& (e.barrier matches RgQueueReleaseBarrier::Buffer(x) ==> batches[b].entry_release_buffers@.contains(x))
        &&& batches[dest_batch].wait_for_batches@.contains(b as usize)
    }
}


/// Each batch of `b` keeps the queue and pass range of the same batch of `a`, and its waits
/// and entry releases extend those of `a`.
pub open spec fn spec_batches_grow(a: Seq<RgPassBatch>, b: Seq<RgPassBatch>) -> bool {
    &&& spec_same_layout(a, b)
    &&& forall|i: int| 0 <= i < a.len() ==> {
        &&& a[i].wait_for_batches@.is_prefix_of((#[trigger] b[i]).wait_for_batches@)
        &&& a[i].entry_release_images@.is_prefix_of(b[i].entry_release_images@)
        &&& a[i].entry_release_buffers@.is_prefix_of(b[i].entry_release_buffers@)
    }
}

/// What a prefix contains, the longer sequence contains.
pub proof fn lemma_prefix_contains<T>(a: Seq<T>, b: Seq<T>, x: T)
    requires
        a.is_prefix_of(b),
        a.contains(x),
    ensures
        b.contains(x),
{
    let i = choose|i: int| 0 <= i < a.len() && a[i] == x;
    assert(b.subrange(0, a.len() as int)[i] == b[i]);
}

/// A sequence is a prefix of itself.
pub proof fn lemma_prefix_refl<T>(a: Seq<T>)
    ensures
        a.is_prefix_of(a),
{
    assert(a.subrange(0, a.len() as int) =~= a);
}

/// A sequence is a prefix of itself with one more element, which that sequence contains.
pub proof fn lemma_prefix_push<T>(a: Seq<T>, v: T)
    ensures
        a.is_prefix_of(a.push(v)),
        a.push(v).contains(v),
{
    assert(a.push(v).subrange(0, a.len() as int) =~= a);
    assert(a.push(v)[a.len() as int] == v);
}

/// Being a prefix is transitive.
pub proof fn lemma_prefix_trans<T>(a: Seq<T>, b: Seq<T>, c: Seq<T>)
    requires
        a.is_prefix_of(b),
        b.is_prefix_of(c),
    ensures
        a.is_prefix_of(c),
{
    assert forall|i: int| 0 <= i < a.len() implies c.subrange(0, a.len() as int)[i] == a[i] by {
        assert(a[i] == b.subrange(0, a.len() as int)[i]);
        assert(b[i] == c.subrange(0, b.len() as int)[i]);
    }
    assert(c.subrange(0, a.len() as int) =~= a);
}

/// Growing batches is reflexive.
pub proof fn lemma_grow_refl(a: Seq<RgPassBatch>)
    ensures
        spec_batches_grow(a, a),
{
    assert forall|i: int| 0 <= i < a.len() implies {
        &&& a[i].wait_for_batches@.is_prefix_of((#[trigger] a[i]).wait_for_batches@)
        &&& a[i].entry_release_images@.is_prefix_of(a[i].entry_release_images@)
        &&& a[i].entry_release_buffers@.is_prefix_of(a[i].entry_release_buffers@)
    } by {
        lemma_prefix_refl(a[i].wait_for_batches@);
        lemma_prefix_refl(a[i].entry_release_images@);
        lemma_prefix_refl(a[i].entry_release_buffers@);
    }
}

/// Growing batches is transitive.
pub proof fn lemma_grow_trans(a: Seq<RgPassBatch>, b: Seq<RgPassBatch>, c: Seq<RgPassBatch>)
    requires
        spec_batches_grow(a, b),
        spec_batches_grow(b, c),
    ensures
        spec_batches_grow(a, c),
{
    assert forall|i: int| 0 <= i < a.len() implies {
        &&& a[i].wait_for_batches@.is_prefix_of((#[trigger] c[i]).wait_for_batches@)
        &&& a[i].entry_release_images@.is_prefix_of(c[i].entry_release_images@)
        &&& a[i].entry_release_buffers@.is_prefix_of(c[i].entry_release_buffers@)
    } by {
        assert(c[i].queue == b[i].queue);
        assert(b[i].queue == a[i].queue);
        lemma_prefix_trans(a[i].wait_for_batches@, b[i].wait_for_batches@, c[i].wait_for_batches@);
        lemma_prefix_trans(a[i].entry_release_images@, b[i].entry_release_images@, c[i].entry_release_images@);
        lemma_prefix_trans(a[i].entry_release_buffers@, b[i].entry_release_buffers@, c[i].entry_release_buffers@);
    }
}

/// Every wait of `batches` was already a wait of the same batch of `start`, or `why` explains
/// it.
pub open spec fn spec_waits_explained(
    start: Seq<RgPassBatch>,
    batches: Seq<RgPassBatch>,
    why: spec_fn(int, usize) -> bool,
) -> bool {
    forall|k: int, x: int|
        0 <= k < batches.len() && 0 <= x < batches[k].wait_for_batches@.len() ==> start[k].wait_for_batches@.contains(
            #[trigger] batches[k].wait_for_batches@[x],
        ) || why(k, batches[k].wait_for_batches@[x])
}

/// Every entry release recorded in `batches` was already recorded by the same batch of `start`,
/// or `why_image` / `why_buffer` explains it.
pub open spec fn spec_entries_explained(
    start: Seq<RgPassBatch>,
    batches: Seq<RgPassBatch>,
    why_image: spec_fn(int, RgImageBarrier) -> bool,
    why_buffer: spec_fn(int, RgBufferBarrier) -> bool,
) -> bool {
    &&& forall|k: int, x: int|
        0 <= k < batches.len() && 0 <= x < batches[k].entry_release_images@.len() ==> start[k].entry_release_images@.contains(
            #[trigger] batches[k].entry_release_images@[x],
        ) || why_image(k, batches[k].entry_release_images@[x])
    &&& forall|k: int, x: int|
        0 <= k < batches.len() && 0 <= x < batches[k].entry_release_buffers@.len() ==> start[k].entry_release_buffers@.contains(
            #[trigger] batches[k].entry_release_buffers@[x],
        ) || why_buffer(k, batches[k].entry_release_buffers@[x])
}

/// A wait of batch `b` for batch `w` that a pass of `b` (by `ptb`) waiting for a pass of `w`
/// explains.
pub open spec fn spec_pass_wait(ptb: Seq<usize>, schedule: Seq<RgPassBarriersView>, b: int, w: usize) -> bool {
    exists|q: int, j: int|
        0 <= q < ptb.len() && ptb[q] == b && 0 <= j < schedule[q].wait_for_passes.len() && #[trigger] ptb[schedule[q].wait_for_passes[j] as int]
            == w && w != b
}

/// A wait of batch `b` for prologue batch `w` that a release `b` acquires explains.
pub open spec fn spec_entry_wait(
    ptb: Seq<usize>,
    entry: Seq<RgEntryRelease>,
    queues: Seq<RgQueueAssignment>,
    b: int,
    w: usize,
) -> bool {
    exists|k: int|
        0 <= k < entry.len() && ptb[(#[trigger] entry[k]).destination_pass as int] == b && w < queues.len()
            && queues[w as int] == entry[k].source_queue
}

/// An entry release of batch `b` that a release whose source queue is `b`'s explains.
pub open spec fn spec_entry_release_of(
    entry: Seq<RgEntryRelease>,
    queues: Seq<RgQueueAssignment>,
    b: int,
    barrier: RgQueueReleaseBarrier,
) -> bool {
    exists|k: int| 0 <= k < entry.len() && (#[trigger] entry[k]).barrier == barrier && b < queues.len() && queues[b] == entry[k].source_queue
}

/// Every wait and entry release of a batch is one it already has.
proof fn lemma_explained_refl(
    start: Seq<RgPassBatch>,
    why: spec_fn(int, usize) -> bool,
    why_image: spec_fn(int, RgImageBarrier) -> bool,
    why_buffer: spec_fn(int, RgBufferBarrier) -> bool,
)
    ensures
        spec_waits_explained(start, start, why),
        spec_entries_explained(start, start, why_image, why_buffer),
{
    assert forall|k: int, x: int| 0 <= k < start.len() && 0 <= x < start[k].wait_for_batches@.len() implies start[k].wait_for_batches@.contains(
        #[trigger] start[k].wait_for_batches@[x],
    ) || why(k, start[k].wait_for_batches@[x]) by {
        assert(start[k].wait_for_batches@[x] == start[k].wait_for_batches@[x]);
    }
    assert forall|k: int, x: int| 0 <= k < start.len() && 0 <= x < start[k].entry_release_images@.len() implies start[k].entry_release_images@.contains(
        #[trigger] start[k].entry_release_images@[x],
    ) || why_image(k, start[k].entry_release_images@[x]) by {
        assert(start[k].entry_release_images@[x] == start[k].entry_release_images@[x]);
    }
    assert forall|k: int, x: int| 0 <= k < start.len() && 0 <= x < start[k].entry_release_buffers@.len() implies start[k].entry_release_buffers@.contains(
        #[trigger] start[k].entry_release_buffers@[x],
    ) || why_buffer(k, start[k].entry_release_buffers@[x]) by {
        assert(start[k].entry_release_buffers@[x] == start[k].entry_release_buffers@[x]);
    }
}

/// Adding one explained wait to one batch keeps every wait explained.
proof fn lemma_waits_explained_step(
    start: Seq<RgPassBatch>,
    a: Seq<RgPassBatch>,
    b: Seq<RgPassBatch>,
    i: int,
    w: usize,
    why: spec_fn(int, usize) -> bool,
)
    requires
        a.len() == b.len(),
        0 <= i < a.len(),
        forall|k: int| 0 <= k < a.len() && k != i ==> (#[trigger] b[k]).wait_for_batches@ == a[k].wait_for_batches@,
        b[i].wait_for_batches@ == a[i].wait_for_batches@ || (b[i].wait_for_batches@ == a[i].wait_for_batches@.push(w)
            && why(i, w)),
        spec_waits_explained(start, a, why),
    ensures
        spec_waits_explained(start, b, why),
{
    assert forall|k: int, x: int| 0 <= k < b.len() && 0 <= x < b[k].wait_for_batches@.len() implies start[k].wait_for_batches@.contains(
        #[trigger] b[k].wait_for_batches@[x],
    ) || why(k, b[k].wait_for_batches@[x]) by {
        if k != i || x < a[i].wait_for_batches@.len() {
            assert(b[k].wait_for_batches@[x] == a[k].wait_for_batches@[x]);
        }
    }
}

/// Adding one explained entry release to one batch keeps every entry release explained.
proof fn lemma_entries_explained_step(
    start: Seq<RgPassBatch>,
    a: Seq<RgPassBatch>,
    b: Seq<RgPassBatch>,
    i: int,
    barrier: RgQueueReleaseBarrier,
    why_image: spec_fn(int, RgImageBarrier) -> bool,
    why_buffer: spec_fn(int, RgBufferBarrier) -> bool,
)
    requires
        a.len() == b.len(),
        0 <= i < a.len(),
        forall|k: int| 0 <= k < a.len() && k != i ==> (#[trigger] b[k]).entry_release_images@ == a[k].entry_release_images@
            && b[k].entry_release_buffers@ == a[k].entry_release_buffers@,
        match barrier {
            RgQueueReleaseBarrier::Image(x) => b[i].entry_release_images@ == a[i].entry_release_images@.push(x)
                && b[i].entry_release_buffers@ == a[i].entry_release_buffers@ && why_image(i, x),
            RgQueueReleaseBarrier::Buffer(x) => b[i].entry_release_buffers@ == a[i].entry_release_buffers@.push(x)
                && b[i].entry_release_images@ == a[i].entry_release_images@ && why_buffer(i, x),
            RgQueueReleaseBarrier::Dependency => b[i].entry_release_images@ == a[i].entry_release_images@
                && b[i].entry_release_buffers@ == a[i].entry_release_buffers@,
        },
        spec_entries_explained(start, a, why_image, why_buffer),
    ensures
        spec_entries_explained(start, b, why_image, why_buffer),
{
    assert forall|k: int, x: int| 0 <= k < b.len() && 0 <= x < b[k].entry_release_images@.len() implies start[k].entry_release_images@.contains(
        #[trigger] b[k].entry_release_images@[x],
    ) || why_image(k, b[k].entry_release_images@[x]) by {
        if k != i || x < a[i].entry_release_images@.len() {
            assert(b[k].entry_release_images@[x] == a[k].entry_release_images@[x]);
        }
    }
    assert forall|k: int, x: int| 0 <= k < b.len() && 0 <= x < b[k].entry_release_buffers@.len() implies start[k].entry_release_buffers@.contains(
        #[trigger] b[k].entry_release_buffers@[x],
    ) || why_buffer(k, b[k].entry_release_buffers@[x]) by {
        if k != i || x < a[i].entry_release_buffers@.len() {
            assert(b[k].entry_release_buffers@[x] == a[k].entry_release_buffers@[x]);
        }
    }
}

/// Changing one batch so that its waits and entry releases extend the old ones grows the
/// batches.
pub proof fn lemma_grow_one(a: Seq<RgPassBatch>, b: Seq<RgPassBatch>, i: int)
    requires
        a.len() == b.len(),
        0 <= i < a.len(),
        forall|k: int| 0 <= k < a.len() && k != i ==> b[k] == a[k],
        b[i].queue == a[i].queue,
        b[i].passes == a[i].passes,
        a[i].wait_for_batches@.is_prefix_of(b[i].wait_for_batches@),
        a[i].entry_release_images@.is_prefix_of(b[i].entry_release_images@),
        a[i].entry_release_buffers@.is_prefix_of(b[i].entry_release_buffers@),
    ensures
        spec_batches_grow(a, b),
{
    assert forall|k: int| 0 <= k < a.len() implies {
        &&& a[k].wait_for_batches@.is_prefix_of((#[trigger] b[k]).wait_for_batches@)
        &&& a[k].entry_release_images@.is_prefix_of(b[k].entry_release_images@)
        &&& a[k].entry_release_buffers@.is_prefix_of(b[k].entry_release_buffers@)
    } by {
        if k != i {
            lemma_prefix_refl(a[k].wait_for_batches@);
            lemma_prefix_refl(a[k].entry_release_images@);
            lemma_prefix_refl(a[k].entry_release_buffers@);
        }
    }
}

/// Growing the batches keeps every entry release placed.
pub proof fn lemma_entry_placed_grows(a: Seq<RgPassBatch>, b: Seq<RgPassBatch>, e: RgEntryRelease, db: int)
    requires
        spec_batches_grow(a, b),
        0 <= db < a.len(),
        spec_entry_placed(a, e, db),
    ensures
        spec_entry_placed(b, e, db),
{
    let w = choose|w: int| {
        &&& 0 <= w < a.len()
        &&& #[trigger] a[w].queue == e.source_queue
        &&& a[w].passes.start == 0
        &&& (e.barrier matches RgQueueReleaseBarrier::Image(x) ==> a[w].entry_release_images@.contains(x))
        &&& (e.barrier matches RgQueueReleaseBarrier::Buffer(x) ==> a[w].entry_release_buffers@.contains(x))
        &&& a[db].wait_for_batches@.contains(w as usize)
    };
    assert(b[w].queue == a[w].queue && b[w].passes == a[w].passes);
    assert(a[db].wait_for_batches@.is_prefix_of(b[db].wait_for_batches@));
    lemma_prefix_contains(a[db].wait_for_batches@, b[db].wait_for_batches@, w as usize);
    match e.barrier {
        RgQueueReleaseBarrier::Image(x) => {
            lemma_prefix_contains(a[w].entry_release_images@, b[w].entry_release_images@, x);
        },
        RgQueueReleaseBarrier::Buffer(x) => {
            lemma_prefix_contains(a[w].entry_release_buffers@, b[w].entry_release_buffers@, x);
        },
        RgQueueReleaseBarrier::Dependency => {},
    }
    assert(b[w].queue == e.source_queue);
}

/// Changing one batch's waits by adding a batch of the plan that it does not wait for yet
/// keeps every batch's waits distinct and in the plan.
pub proof fn lemma_waits_wf_step(a: Seq<RgPassBatch>, b: Seq<RgPassBatch>, i: int, w: usize)
    requires
        spec_batch_waits_wf(a),
        a.len() == b.len(),
        0 <= i < a.len(),
        w < a.len(),
        forall|k: int| 0 <= k < a.len() && k != i ==> (#[trigger] b[k]).wait_for_batches@ == a[k].wait_for_batches@,
        b[i].wait_for_batches@ == a[i].wait_for_batches@ || (!a[i].wait_for_batches@.contains(w)
            && b[i].wait_for_batches@ == a[i].wait_for_batches@.push(w)),
    ensures
        spec_batch_waits_wf(b),
{
    assert forall|k: int| 0 <= k < b.len() implies {
        &&& (#[trigger] b[k]).wait_for_batches@.no_duplicates()
        &&& forall|j: int| 0 <= j < b[k].wait_for_batches@.len() ==> b[k].wait_for_batches@[j] < b.len()
    } by {
        assert(a[k].wait_for_batches@.no_duplicates());
        if k == i && b[i].wait_for_batches@ != a[i].wait_for_batches@ {
            let s = a[i].wait_for_batches@;
            let t = b[i].wait_for_batches@;
            assert forall|x: int, y: int| 0 <= x < t.len() && 0 <= y < t.len() && x != y implies t[x] != t[y] by {
                if x == s.len() as int {
                    assert(!s.contains(w));
                    assert(s[y] == t[y]);
                } else if y == s.len() as int {
                    assert(!s.contains(w));
                    assert(s[x] == t[x]);
                } else {
                    assert(s[x] == t[x] && s[y] == t[y]);
                }
            }
            assert forall|j: int| 0 <= j < t.len() implies t[j] < b.len() by {
                if j < s.len() {
                    assert(s[j] == t[j]);
                }
            }
        }
    }
}

/// In a chain, an earlier batch ends no later than a later batch starts.
pub proof fn lemma_chain_order(batches: Seq<RgPassBatch>, n: int, i: int, j: int)
    requires
        spec_batches_chain(batches, n),
        0 <= i < j < batches.len(),
    ensures
        batches[i].passes.end <= batches[j].passes.start,
    decreases j - i,
{
    let prev = batches[j - 1];
    if j > i + 1 {
        lemma_chain_order(batches, n, i, j - 1);
        assert(prev.passes.start <= prev.passes.end);
    }
    assert(batches[j].passes.start == prev.passes.end);
}

/// A chain over no passes has only empty batches at pass 0.
pub proof fn lemma_chain_empty(batches: Seq<RgPassBatch>)
    requires
        spec_batches_chain(batches, 0),
    ensures
        forall|b: int| 0 <= b < batches.len() ==> (#[trigger] batches[b]).passes.start == 0 && batches[b].passes.end == 0,
{
    assert forall|b: int| 0 <= b < batches.len() implies (#[trigger] batches[b]).passes.start == 0 && batches[b].passes.end == 0 by {
        let last = batches.len() - 1;
        if b < last {
            lemma_chain_order(batches, 0, b, last);
        }
        assert(batches[last].passes.start <= batches[last].passes.end);
        assert(batches[b].passes.start <= batches[b].passes.end);
    }
}

/// In a chain, one batch at most records a pass.
pub proof fn lemma_in_batch_unique(batches: Seq<RgPassBatch>, n: int, b1: int, b2: int, p: int)
    requires
        spec_batches_chain(batches, n),
        spec_in_batch(batches, b1, p),
        spec_in_batch(batches, b2, p),
    ensures
        b1 == b2,
{
    if b1 < b2 {
        lemma_chain_order(batches, n, b1, b2);
    } else if b2 < b1 {
        lemma_chain_order(batches, n, b2, b1);
    }
}

/// Batches with the same queues and ranges chain alike.
pub proof fn lemma_layout_chain(a: Seq<RgPassBatch>, b: Seq<RgPassBatch>, n: int)
    requires
        spec_same_layout(a, b),
        spec_batches_chain(a, n),
    ensures
        spec_batches_chain(b, n),
{
    if b.len() > 0 {
        assert(b[0].passes == a[0].passes);
        assert(b[b.len() - 1].passes == a[a.len() - 1].passes);
    }
    assert forall|i: int, j: int| #![trigger b[i], b[j]] 0 <= i && j == i + 1 && j < b.len()
        implies b[j].passes.start == b[i].passes.end && b[j].queue != b[i].queue by {
        assert(b[i].passes == a[i].passes && b[i].queue == a[i].queue);
        assert(b[j].passes == a[j].passes && b[j].queue == a[j].queue);
        assert(a[j].passes.start == a[i].passes.end && a[j].queue != a[i].queue);
    }
    assert forall|i: int| 0 <= i < b.len() implies (#[trigger] b[i]).passes.start <= b[i].passes.end by {
        assert(b[i].passes == a[i].passes);
        assert(a[i].passes.start <= a[i].passes.end);
    }
}

/// Batches with the same queues and ranges record the same passes.
pub proof fn lemma_layout_in_batch(a: Seq<RgPassBatch>, b: Seq<RgPassBatch>, x: int, p: int)
    requires
        spec_same_layout(a, b),
    ensures
        spec_in_batch(b, x, p) == spec_in_batch(a, x, p),
{
    if 0 <= x < b.len() {
        assert(b[x].passes == a[x].passes);
    }
}

/// The waits that passes acquire from other batches are recorded for the first `upto` passes.
pub open spec fn spec_pass_waits_done(
    batches: Seq<RgPassBatch>,
    schedule: Seq<RgPassBarriersView>,
    ptb: Seq<usize>,
    upto: int,
) -> bool {
    forall|q: int, j: int|
        0 <= q < upto && 0 <= j < schedule[q].wait_for_passes.len()
            && ptb[#[trigger] schedule[q].wait_for_passes[j] as int] != ptb[q]
            ==> batches[ptb[q] as int].wait_for_batches@.contains(ptb[schedule[q].wait_for_passes[j] as int])
}

/// Growing the batches keeps recorded pass waits.
pub proof fn lemma_pass_waits_grow(
    a: Seq<RgPassBatch>,
    b: Seq<RgPassBatch>,
    schedule: Seq<RgPassBarriersView>,
    ptb: Seq<usize>,
    upto: int,
)
    requires
        spec_batches_grow(a, b),
        spec_pass_waits_done(a, schedule, ptb, upto),
        forall|q: int| 0 <= q < upto ==> (#[trigger] ptb[q]) < a.len(),
    ensures
        spec_pass_waits_done(b, schedule, ptb, upto),
{
    assert forall|q: int, j: int|
        0 <= q < upto && 0 <= j < schedule[q].wait_for_passes.len()
            && ptb[#[trigger] schedule[q].wait_for_passes[j] as int] != ptb[q]
        implies b[ptb[q] as int].wait_for_batches@.contains(ptb[schedule[q].wait_for_passes[j] as int]) by {
        let x = ptb[q] as int;
        assert(a[x].wait_for_batches@.is_prefix_of(b[x].wait_for_batches@));
        lemma_prefix_contains(a[x].wait_for_batches@, b[x].wait_for_batches@, ptb[schedule[q].wait_for_passes[j] as int]);
    }
}

fn set_batch_end(batch: &mut RgPassBatch, end: usize)
    ensures
        final(batch).queue == old(batch).queue,
        final(batch).passes == (std::ops::Range { start: old(batch).passes.start, end }),
        final(batch).wait_for_batches@ == old(batch).wait_for_batches@,
        final(batch).entry_release_images@ == old(batch).entry_release_images@,
        final(batch).entry_release_buffers@ == old(batch).entry_release_buffers@,
{
    batch.passes = batch.passes.start..end;
}

fn add_batch_wait(batch: &mut RgPassBatch, w: usize)
    ensures
        final(batch).queue == old(batch).queue,
        final(batch).passes == old(batch).passes,
        final(batch).wait_for_batches@ == if old(batch).wait_for_batches@.contains(w) {
            old(batch).wait_for_batches@
        } else {
            old(batch).wait_for_batches@.push(w)
        },
        final(batch).wait_for_batches@.contains(w),
        old(batch).wait_for_batches@.is_prefix_of(final(batch).wait_for_batches@),
        old(batch).entry_release_images@.is_prefix_of(final(batch).entry_release_images@),
        old(batch).entry_release_buffers@.is_prefix_of(final(batch).entry_release_buffers@),
        final(batch).entry_release_images@ == old(batch).entry_release_images@,
        final(batch).entry_release_buffers@ == old(batch).entry_release_buffers@,
{
    proof {
        lemma_prefix_refl(batch.wait_for_batches@);
        lemma_prefix_refl(batch.entry_release_images@);
        lemma_prefix_refl(batch.entry_release_buffers@);
        lemma_prefix_push(batch.wait_for_batches@, w);
    }
    let mut i: usize = 0;
    while i < batch.wait_for_batches.len()
        invariant
            i <= batch.wait_for_batches@.len(),
            batch.wait_for_batches@ == old(batch).wait_for_batches@,
            forall|k: int| 0 <= k < i ==> batch.wait_for_batches@[k] != w,
        decreases batch.wait_for_batches.len() - i,
    {
        if batch.wait_for_batches[i] == w {
            assert(batch.wait_for_batches@[i as int] == w);
            return ;
        }
        i = i + 1;
    }
    batch.wait_for_batches.push(w);
}

fn push_entry_image(batch: &mut RgPassBatch, x: RgImageBarrier)
    ensures
        final(batch).queue == old(batch).queue,
        final(batch).passes == old(batch).passes,
        final(batch).wait_for_batches@ == old(batch).wait_for_batches@,
        final(batch).entry_release_images@ == old(batch).entry_release_images@.push(x),
        final(batch).entry_release_images@.contains(x),
        old(batch).wait_for_batches@.is_prefix_of(final(batch).wait_for_batches@),
        old(batch).entry_release_images@.is_prefix_of(final(batch).entry_release_images@),
        old(batch).entry_release_buffers@.is_prefix_of(final(batch).entry_release_buffers@),
        final(batch).entry_release_buffers@ == old(batch).entry_release_buffers@,
{
    proof {
        lemma_prefix_refl(batch.wait_for_batches@);
        lemma_prefix_refl(batch.entry_release_buffers@);
        lemma_prefix_push(batch.entry_release_images@, x);
    }
    batch.entry_release_images.push(x);
}

fn push_entry_buffer(batch: &mut RgPassBatch, x: RgBufferBarrier)
    ensures
        final(batch).queue == old(batch).queue,
        final(batch).passes == old(batch).passes,
        final(batch).wait_for_batches@ == old(batch).wait_for_batches@,
        final(batch).entry_release_images@ == old(batch).entry_release_images@,
        final(batch).entry_release_buffers@ == old(batch).entry_release_buffers@.push(x),
        final(batch).entry_release_buffers@.contains(x),
        old(batch).wait_for_batches@.is_prefix_of(final(batch).wait_for_batches@),
        old(batch).entry_release_images@.is_prefix_of(final(batch).entry_release_images@),
        old(batch).entry_release_buffers@.is_prefix_of(final(batch).entry_release_buffers@),
{
    proof {
        lemma_prefix_refl(batch.wait_for_batches@);
        lemma_prefix_refl(batch.entry_release_images@);
        lemma_prefix_push(batch.entry_release_buffers@, x);
    }
    batch.entry_release_buffers.push(x);
}

fn queue_position(queues: &Vec<RgQueueAssignment>, q: RgQueueAssignment) -> (r: Option<usize>)
    ensures
        r matches Some(i) ==> i < queues@.len() && queues@[i as int] == q,
        r is None ==> !queues@.contains(q),
{
    let mut i: usize = 0;
    while i < queues.len()
        invariant
            i <= queues@.len(),
            forall|k: int| 0 <= k < i ==> queues@[k] != q,
        decreases queues.len() - i,
    {
        if queues[i] == q {
            return Some(i);
        }
        i = i + 1;
    }
    None
}

/// The distinct queues the releases of `entry` leave, in order of first appearance: the queues
/// of a plan's prologue batches.
pub open spec fn spec_source_queues(entry: Seq<RgEntryRelease>) -> Seq<RgQueueAssignment>
    decreases entry.len(),
{
    if entry.len() == 0 {
        Seq::empty()
    } else {
        let prev = spec_source_queues(entry.drop_last());
        if prev.contains(entry.last().source_queue) {
            prev
        } else {
            prev.push(entry.last().source_queue)
        }
    }
}

/// Whether some release of `entry` leaves `queue`.
pub open spec fn spec_released_from(entry: Seq<RgEntryRelease>, queue: RgQueueAssignment) -> bool {
    exists|j: int| 0 <= j < entry.len() && (#[trigger] entry[j]).source_queue == queue
}

/// The prologue of a plan: its first batches are one per distinct queue the entry releases
/// leave, in order of first appearance, each from pass 0; every later batch records a pass.
pub open spec fn spec_prologue_layout(batches: Seq<RgPassBatch>, entry: Seq<RgEntryRelease>) -> bool {
    let qs = spec_source_queues(entry);
    &&& qs.len() <= batches.len()
    &&& forall|i: int| 0 <= i < qs.len() ==> (#[trigger] batches[i]).queue == qs[i] && batches[i].passes.start == 0
    &&& forall|i: int| qs.len() <= i < batches.len() ==> (#[trigger] batches[i]).passes.start < batches[i].passes.end
}

/// Why batch `b` of a plan may wait for batch `w`: a pass `b` records waits for a pass that
/// `w` records, or `w` is the prologue batch of the queue an entry release acquired in `b`
/// leaves.
pub open spec fn spec_wait_reason(
    batches: Seq<RgPassBatch>,
    schedule: Seq<RgPassBarriersView>,
    entry: Seq<RgEntryRelease>,
    b: int,
    w: int,
) -> bool {
    ||| exists|q: int, j: int|
        #![trigger spec_in_batch(batches, w, schedule[q].wait_for_passes[j] as int)]
        spec_in_batch(batches, b, q) && 0 <= j < schedule[q].wait_for_passes.len() && spec_in_batch(
            batches,
            w,
            schedule[q].wait_for_passes[j] as int,
        ) && w != b
    ||| exists|k: int|
        0 <= k < entry.len() && spec_in_batch(batches, b, (#[trigger] entry[k]).destination_pass as int) && 0 <= w
            < spec_source_queues(entry).len() && spec_source_queues(entry)[w] == entry[k].source_queue
}

/// Why batch `b` may record an entry release: the release leaves the queue whose prologue
/// batch `b` is.
pub open spec fn spec_entry_release_reason(entry: Seq<RgEntryRelease>, b: int, barrier: RgQueueReleaseBarrier) -> bool {
    exists|k: int|
        0 <= k < entry.len() && (#[trigger] entry[k]).barrier == barrier && 0 <= b < spec_source_queues(entry).len()
            && spec_source_queues(entry)[b] == entry[k].source_queue
}

/// Everything a plan's batches wait for and record has its reason (see [`spec_wait_reason`] and
/// [`spec_entry_release_reason`]).
pub open spec fn spec_plan_reasons(
    batches: Seq<RgPassBatch>,
    schedule: Seq<RgPassBarriersView>,
    entry: Seq<RgEntryRelease>,
) -> bool {
    &&& forall|b: int, x: int|
        0 <= b < batches.len() && 0 <= x < batches[b].wait_for_batches@.len() ==> spec_wait_reason(
            batches,
            schedule,
            entry,
            b,
            #[trigger] batches[b].wait_for_batches@[x] as int,
        )
    &&& forall|b: int, x: int|
        0 <= b < batches.len() && 0 <= x < batches[b].entry_release_images@.len() ==> spec_entry_release_reason(
            entry,
            b,
            RgQueueReleaseBarrier::Image(#[trigger] batches[b].entry_release_images@[x]),
        )
    &&& forall|b: int, x: int|
        0 <= b < batches.len() && 0 <= x < batches[b].entry_release_buffers@.len() ==> spec_entry_release_reason(
            entry,
            b,
            RgQueueReleaseBarrier::Buffer(#[trigger] batches[b].entry_release_buffers@[x]),
        )
}

/// The waits and entry releases the two placing steps add, explained by pass and entry, are
/// the plan's reasons.
proof fn lemma_plan_reasons(
    layout: Seq<RgPassBatch>,
    placed: Seq<RgPassBatch>,
    b: Seq<RgPassBatch>,
    ptb: Seq<usize>,
    schedule: Seq<RgPassBarriersView>,
    entry: Seq<RgEntryRelease>,
    queues: Seq<RgQueueAssignment>,
)
    requires
        forall|i: int| 0 <= i < layout.len() ==> {
            &&& (#[trigger] layout[i]).wait_for_batches@.len() == 0
            &&& layout[i].entry_release_images@.len() == 0
            &&& layout[i].entry_release_buffers@.len() == 0
        },
        spec_same_layout(layout, placed),
        spec_same_layout(layout, b),
        spec_waits_explained(layout, placed, |x: int, w: usize| spec_entry_wait(ptb, entry, queues, x, w)),
        spec_entries_explained(
            layout,
            placed,
            |x: int, y: RgImageBarrier| spec_entry_release_of(entry, queues, x, RgQueueReleaseBarrier::Image(y)),
            |x: int, y: RgBufferBarrier| spec_entry_release_of(entry, queues, x, RgQueueReleaseBarrier::Buffer(y)),
        ),
        spec_waits_explained(placed, b, |x: int, w: usize| spec_pass_wait(ptb, schedule, x, w)),
        forall|i: int| 0 <= i < placed.len() ==> (#[trigger] b[i]).entry_release_images@ == placed[i].entry_release_images@
            && b[i].entry_release_buffers@ == placed[i].entry_release_buffers@,
        forall|q: int| 0 <= q < ptb.len() ==> spec_in_batch(layout, #[trigger] ptb[q] as int, q),
        queues == spec_source_queues(entry),
        schedule.len() == ptb.len(),
        spec_waits_wf(schedule),
        forall|k: int| 0 <= k < entry.len() ==> (#[trigger] entry[k]).destination_pass < ptb.len(),
    ensures
        spec_plan_reasons(b, schedule, entry),
{
    assert forall|x: int, i: int| 0 <= x < b.len() && 0 <= i < b[x].wait_for_batches@.len() implies spec_wait_reason(
        b,
        schedule,
        entry,
        x,
        #[trigger] b[x].wait_for_batches@[i] as int,
    ) by {
        let w = b[x].wait_for_batches@[i];
        if placed[x].wait_for_batches@.contains(w) {
            let y = choose|y: int| 0 <= y < placed[x].wait_for_batches@.len() && placed[x].wait_for_batches@[y] == w;
            assert(!layout[x].wait_for_batches@.contains(placed[x].wait_for_batches@[y]));
            assert(spec_entry_wait(ptb, entry, queues, x, w));
            let k = choose|k: int|
                0 <= k < entry.len() && ptb[(#[trigger] entry[k]).destination_pass as int] == x && w < queues.len()
                    && queues[w as int] == entry[k].source_queue;
            let d = entry[k].destination_pass as int;
            assert(spec_in_batch(layout, ptb[d] as int, d));
            lemma_layout_in_batch(layout, b, x, d);
        } else {
            assert(spec_pass_wait(ptb, schedule, x, w));
            let (q, j) = choose|q: int, j: int|
                0 <= q < ptb.len() && ptb[q] == x && 0 <= j < schedule[q].wait_for_passes.len() && #[trigger] ptb[schedule[q].wait_for_passes[j] as int]
                    == w && w != x;
            let src = schedule[q].wait_for_passes[j] as int;
            assert(src < schedule.len());
            assert(spec_in_batch(layout, ptb[q] as int, q));
            lemma_layout_in_batch(layout, b, x, q);
            assert(spec_in_batch(layout, ptb[src] as int, src));
            lemma_layout_in_batch(layout, b, w as int, src);
        }
    }
    assert forall|x: int, i: int| 0 <= x < b.len() && 0 <= i < b[x].entry_release_images@.len() implies spec_entry_release_reason(
        entry,
        x,
        RgQueueReleaseBarrier::Image(#[trigger] b[x].entry_release_images@[i]),
    ) by {
        assert(b[x].entry_release_images@[i] == placed[x].entry_release_images@[i]);
        assert(!layout[x].entry_release_images@.contains(placed[x].entry_release_images@[i]));
    }
    assert forall|x: int, i: int| 0 <= x < b.len() && 0 <= i < b[x].entry_release_buffers@.len() implies spec_entry_release_reason(
        entry,
        x,
        RgQueueReleaseBarrier::Buffer(#[trigger] b[x].entry_release_buffers@[i]),
    ) by {
        assert(b[x].entry_release_buffers@[i] == placed[x].entry_release_buffers@[i]);
        assert(!layout[x].entry_release_buffers@.contains(placed[x].entry_release_buffers@[i]));
    }
}

/// A chain of batches that each record a pass, all of whose passes run on the graphics queue,
/// is at most one batch, and not on the async-compute queue.
proof fn lemma_single_graphics_batch(batches: Seq<RgPassBatch>, schedule: Seq<RgPassBarriersView>, n: int)
    requires
        spec_batches_chain(batches, n),
        spec_batches_on_queues(batches, schedule),
        forall|p: int| 0 <= p < n ==> (#[trigger] schedule[p]).queue == RgQueueAssignment::Graphics,
        forall|b: int| 0 <= b < batches.len() ==> (#[trigger] batches[b]).passes.start < batches[b].passes.end,
    ensures
        batches.len() <= 1,
        spec_count_batches(batches, RgQueueAssignment::AsyncCompute) == 0,
{
    assert forall|b: int| 0 <= b < batches.len() implies (#[trigger] batches[b]).queue
        == RgQueueAssignment::Graphics by {
        let last = batches.len() - 1;
        if b < last {
            lemma_chain_order(batches, n, b, last);
        }
        assert(batches[last].passes.start < batches[last].passes.end);
        let p = batches[b].passes.start as int;
        assert(spec_in_batch(batches, b, p));
        assert(batches[b].queue == schedule[p].queue);
    }
    if batches.len() >= 2 {
        assert(batches[0].queue != batches[1].queue);
    }
    if batches.len() == 1 {
        assert(batches.drop_last().len() == 0);
        assert(spec_count_batches(batches.drop_last(), RgQueueAssignment::AsyncCompute) == 0);
    }
}

/// What the batches of a plan have from its prologue: a batch that records no pass is a
/// prologue batch of a queue some entry release leaves; and on a topology without an
/// async-compute queue there are none, so the plan is at most one graphics batch.
proof fn lemma_plan_batches_sources(
    g: RenderGraph,
    families: RgQueueFamilies,
    layout: Seq<RgPassBatch>,
    b: Seq<RgPassBatch>,
    queues: Seq<RgQueueAssignment>,
    entry: Seq<RgEntryRelease>,
    schedule: Seq<RgPassBarriersView>,
)
    requires
        spec_same_layout(layout, b),
        queues.len() <= layout.len(),
        forall|x: int| queues.len() <= x < layout.len() ==> (#[trigger] layout[x]).passes.start < layout[x].passes.end,
        forall|i: int| 0 <= i < queues.len() ==> (#[trigger] layout[i]).queue == queues[i] && layout[i].passes.start == 0,
        forall|i: int| 0 <= i < queues.len() ==> spec_released_from(entry, #[trigger] queues[i]),
        queues == spec_source_queues(entry),
        spec_batches_chain(b, g.passes@.len() as int),
        spec_batches_on_queues(b, schedule),
        schedule.len() == g.passes@.len(),
        forall|k: int| 0 <= k < schedule.len() ==> (#[trigger] schedule[k]).queue == spec_resolve_queue(
            g,
            g.passes@[k],
            k,
            families,
        ).0,
        spec_entries_cross_queues(entry, schedule),
        spec_entry_consistent(entry, families),
    ensures
        spec_prologue_layout(b, entry),
        forall|x: int| 0 <= x < b.len() && (#[trigger] b[x]).passes.end <= b[x].passes.start
            ==> spec_released_from(entry, b[x].queue),
        families.async_compute is None ==> b.len() <= 1 && spec_count_batches(b, RgQueueAssignment::AsyncCompute) == 0,
{
    assert forall|i: int| 0 <= i < queues.len() implies (#[trigger] b[i]).queue == queues[i] && b[i].passes.start == 0 by {
        assert(b[i].queue == layout[i].queue && b[i].passes == layout[i].passes);
    }
    assert forall|i: int| queues.len() <= i < b.len() implies (#[trigger] b[i]).passes.start < b[i].passes.end by {
        assert(b[i].passes == layout[i].passes);
    }
    assert forall|x: int| 0 <= x < b.len() && (#[trigger] b[x]).passes.end <= b[x].passes.start
        implies spec_released_from(entry, b[x].queue) by {
        assert(b[x].queue == layout[x].queue && b[x].passes == layout[x].passes);
        if x >= queues.len() {
            assert(layout[x].passes.start < layout[x].passes.end);
        } else {
            assert(layout[x].queue == queues[x]);
        }
    }
    if families.async_compute is None {
        let n = g.passes@.len() as int;
        assert forall|p: int| 0 <= p < n implies (#[trigger] schedule[p]).queue == RgQueueAssignment::Graphics by {
            assert(schedule[p].queue == spec_resolve_queue(g, g.passes@[p], p, families).0);
        }
        if entry.len() > 0 {
            let e = entry[0];
            assert(e.source_queue != schedule[e.destination_pass as int].queue);
            assert(spec_queue_family(families, e.source_queue) == Some(e.source_family));
        }
        assert forall|x: int| 0 <= x < b.len() implies (#[trigger] b[x]).passes.start < b[x].passes.end by {
            if b[x].passes.end <= b[x].passes.start {
                assert(spec_released_from(entry, b[x].queue));
            }
        }
        lemma_single_graphics_batch(b, schedule, n);
    }
}

/// One empty batch per distinct source queue of the releases whose source is the previous
/// frame, in order of first appearance.
fn prologue_batches(entry: &Vec<RgEntryRelease>) -> (r: (Vec<RgPassBatch>, Vec<RgQueueAssignment>))
    ensures
        r.0@.len() == r.1@.len(),
        r.1@.no_duplicates(),
        forall|i: int| 0 <= i < r.0@.len() ==> {
            &&& (#[trigger] r.0@[i]).queue == r.1@[i]
            &&& r.0@[i].passes == (std::ops::Range { start: 0usize, end: 0usize })
            &&& r.0@[i].wait_for_batches@.len() == 0
            &&& r.0@[i].entry_release_images@.len() == 0
            &&& r.0@[i].entry_release_buffers@.len() == 0
        },
        forall|j: int| 0 <= j < entry@.len() ==> r.1@.contains((#[trigger] entry@[j]).source_queue),
        forall|i: int| 0 <= i < r.1@.len() ==> spec_released_from(entry@, #[trigger] r.1@[i]),
        r.1@ == spec_source_queues(entry@),
{
    let mut batches: Vec<RgPassBatch> = Vec::new();
    let mut queues: Vec<RgQueueAssignment> = Vec::new();
    let mut k: usize = 0;
    while k < entry.len()
        invariant
            k <= entry@.len(),
            batches@.len() == queues@.len(),
            queues@.no_duplicates(),
            forall|i: int| 0 <= i < batches@.len() ==> {
                &&& (#[trigger] batches@[i]).queue == queues@[i]
                &&& batches@[i].passes == (std::ops::Range { start: 0usize, end: 0usize })
                &&& batches@[i].wait_for_batches@.len() == 0
                &&& batches@[i].entry_release_images@.len() == 0
                &&& batches@[i].entry_release_buffers@.len() == 0
            },
            forall|j: int| 0 <= j < k ==> queues@.contains((#[trigger] entry@[j]).source_queue),
            forall|i: int| 0 <= i < queues@.len() ==> spec_released_from(entry@, #[trigger] queues@[i]),
            queues@ == spec_source_queues(entry@.take(k as int)),
        decreases entry.len() - k,
    {
        assert(entry@.take(k as int + 1).drop_last() =~= entry@.take(k as int));
        assert(entry@.take(k as int + 1).last() == entry@[k as int]);
        let q = entry[k].source_queue;
        let ghost old_q = queues@;
        match queue_position(&queues, q) {
            Some(i) => {
                assert(queues@[i as int] == q);
            },
            None => {
                queues.push(q);
                batches.push(
                    RgPassBatch {
                        queue: q,
                        passes: 0..0,
                        wait_for_batches: Vec::new(),
                        entry_release_images: Vec::new(),
                        entry_release_buffers: Vec::new(),
                    },
                );
                proof {
                    assert(queues@.last() == q);
                    assert(forall|x: int| 0 <= x < old_q.len() ==> queues@[x] == old_q[x]);
                    assert(entry@[k as int].source_queue == q);
                }
            },
        }
        proof {
            assert(queues@.contains(q));
            assert forall|j: int| 0 <= j < k + 1 implies queues@.contains((#[trigger] entry@[j]).source_queue) by {
                if j < k {
                    assert(old_q.contains(entry@[j].source_queue));
                    let w = choose|x: int| 0 <= x < old_q.len() && old_q[x] == entry@[j].source_queue;
                    assert(queues@[w] == old_q[w]);
                }
            }
        }
        k = k + 1;
    }
    assert(entry@.take(k as int) =~= entry@);
    (batches, queues)
}

/// Appends the passes in order, each to the last batch when that batch is on the pass's queue
/// and to a new batch otherwise; returns the batch of each pass.
fn append_pass_batches(batches: &mut Vec<RgPassBatch>, passes: &Vec<RgPassBarriers>) -> (ptb: Vec<usize>)
    requires
        spec_batches_chain(old(batches)@, 0),
        forall|i: int| 0 <= i < old(batches)@.len() ==> {
            &&& (#[trigger] old(batches)@[i]).wait_for_batches@.len() == 0
            &&& old(batches)@[i].entry_release_images@.len() == 0
            &&& old(batches)@[i].entry_release_buffers@.len() == 0
        },
    ensures
        old(batches)@.len() <= final(batches)@.len(),
        forall|i: int| 0 <= i < old(batches)@.len() ==> (#[trigger] final(batches)@[i]).queue == old(batches)@[i].queue
            && final(batches)@[i].passes.start == 0,
        forall|i: int| 0 <= i < final(batches)@.len() ==> {
            &&& (#[trigger] final(batches)@[i]).wait_for_batches@.len() == 0
            &&& final(batches)@[i].entry_release_images@.len() == 0
            &&& final(batches)@[i].entry_release_buffers@.len() == 0
        },
        spec_batches_chain(final(batches)@, passes@.len() as int),
        spec_batches_on_queues(final(batches)@, spec_schedule(passes@)),
        ptb@.len() == passes@.len(),
        forall|q: int| 0 <= q < passes@.len() ==> spec_in_batch(final(batches)@, #[trigger] ptb@[q] as int, q),
        forall|q: int| 0 <= q < passes@.len() ==> #[trigger] ptb@[q] + 1 >= old(batches)@.len(),
        forall|i: int| old(batches)@.len() <= i < final(batches)@.len() ==> (#[trigger] final(batches)@[i]).passes.start
            < final(batches)@[i].passes.end,
{
    let n = passes.len();
    let ghost schedule = spec_schedule(passes@);
    let ghost start = batches@;
    let mut pass_to_batch: Vec<usize> = Vec::new();
    let mut p: usize = 0;
    proof {
        lemma_chain_empty(batches@);
    }
    while p < n
        invariant
            p <= n,
            n == passes@.len(),
            schedule == spec_schedule(passes@),
            start.len() <= batches@.len(),
            forall|i: int| 0 <= i < start.len() ==> (#[trigger] batches@[i]).queue == start[i].queue
                && batches@[i].passes.start == 0,
            forall|i: int| 0 <= i < batches@.len() ==> {
                &&& (#[trigger] batches@[i]).wait_for_batches@.len() == 0
                &&& batches@[i].entry_release_images@.len() == 0
                &&& batches@[i].entry_release_buffers@.len() == 0
            },
            spec_batches_chain(batches@, p as int),
            pass_to_batch@.len() == p,
            forall|q: int| 0 <= q < p ==> spec_in_batch(batches@, #[trigger] pass_to_batch@[q] as int, q),
            forall|q: int| 0 <= q < p ==> #[trigger] pass_to_batch@[q] + 1 >= start.len(),
            spec_batches_on_queues(batches@, schedule),
            forall|i: int| start.len() <= i < batches@.len() ==> (#[trigger] batches@[i]).passes.start
                < batches@[i].passes.end,
        decreases n - p,
    {
        let queue = passes[p].queue;
        proof {
            assert(schedule[p as int].queue == queue);
        }
        let len = batches.len();
        let ghost old_b = batches@;
        if len > 0 && batches[len - 1].queue == queue {
            set_batch_end(&mut batches[len - 1], p + 1);
            pass_to_batch.push(len - 1);
            proof {
                assert forall|b: int, q: int| spec_in_batch(batches@, b, q) implies #[trigger] batches@[b].queue == #[trigger] schedule[q].queue by {
                    if b == len - 1 && q == p {
                    } else if b == len - 1 {
                        assert(spec_in_batch(old_b, b, q));
                    } else {
                        assert(batches@[b] == old_b[b]);
                        assert(spec_in_batch(old_b, b, q));
                    }
                }
                assert forall|q: int| 0 <= q < p + 1 implies spec_in_batch(batches@, #[trigger] pass_to_batch@[q] as int, q) by {
                    if q < p {
                        let b = pass_to_batch@[q] as int;
                        assert(spec_in_batch(old_b, b, q));
                        if b != len - 1 {
                            assert(batches@[b] == old_b[b]);
                        }
                    }
                }
                assert forall|i: int, j: int| #![trigger batches@[i], batches@[j]] 0 <= i && j == i + 1 && j < batches@.len()
                    implies batches@[j].passes.start == batches@[i].passes.end && batches@[j].queue != batches@[i].queue by {
                    assert(batches@[i] == old_b[i]);
                    assert(old_b[j].passes.start == old_b[i].passes.end && old_b[j].queue != old_b[i].queue);
                    if j != len - 1 {
                        assert(batches@[j] == old_b[j]);
                    }
                }
                assert forall|i: int| 0 <= i < start.len() implies (#[trigger] batches@[i]).queue == start[i].queue
                    && batches@[i].passes.start == 0 by {
                    assert(old_b[i].queue == start[i].queue);
                }
                assert forall|i: int| start.len() <= i < batches@.len() implies (#[trigger] batches@[i]).passes.start
                    < batches@[i].passes.end by {
                    if i != len - 1 {
                        assert(batches@[i] == old_b[i]);
                    } else {
                        assert(old_b[i].passes.start <= old_b[i].passes.end);
                        assert(old_b.last().passes.end == p);
                    }
                }
            }
        } else {
            batches.push(
                RgPassBatch {
                    queue,
                    passes: p..p + 1,
                    wait_for_batches: Vec::new(),
                    entry_release_images: Vec::new(),
                    entry_release_buffers: Vec::new(),
                },
            );
            pass_to_batch.push(len);
            proof {
                assert forall|b: int, q: int| spec_in_batch(batches@, b, q) implies #[trigger] batches@[b].queue == #[trigger] schedule[q].queue by {
                    if b < len {
                        assert(batches@[b] == old_b[b]);
                        assert(spec_in_batch(old_b, b, q));
                    }
                }
                assert forall|q: int| 0 <= q < p + 1 implies spec_in_batch(batches@, #[trigger] pass_to_batch@[q] as int, q) by {
                    if q < p {
                        let b = pass_to_batch@[q] as int;
                        assert(spec_in_batch(old_b, b, q));
                        assert(batches@[b] == old_b[b]);
                    }
                }
                assert forall|i: int, j: int| #![trigger batches@[i], batches@[j]] 0 <= i && j == i + 1 && j < batches@.len()
                    implies batches@[j].passes.start == batches@[i].passes.end && batches@[j].queue != batches@[i].queue by {
                    assert(batches@[i] == old_b[i]);
                    if j < len {
                        assert(batches@[j] == old_b[j]);
                        assert(old_b[j].passes.start == old_b[i].passes.end && old_b[j].queue != old_b[i].queue);
                    } else {
                        assert(old_b[len - 1] == old_b.last());
                    }
                }
                assert forall|i: int| 0 <= i < batches@.len() implies (#[trigger] batches@[i]).passes.start <= batches@[i].passes.end by {
                    if i < len {
                        assert(batches@[i] == old_b[i]);
                    }
                }
                assert forall|i: int| 0 <= i < start.len() implies (#[trigger] batches@[i]).queue == start[i].queue
                    && batches@[i].passes.start == 0 by {
                    assert(batches@[i] == old_b[i]);
                }
                assert forall|i: int| start.len() <= i < batches@.len() implies (#[trigger] batches@[i]).passes.start
                    < batches@[i].passes.end by {
                    if i < len {
                        assert(batches@[i] == old_b[i]);
                    }
                }
            }
        }
        p = p + 1;
    }
    pass_to_batch
}

/// The batch of the pass that acquires an entry release waits for a prologue batch that
/// records the release.
pub open spec fn spec_entry_recorded(batches: Seq<RgPassBatch>, e: RgEntryRelease) -> bool {
    exists|db: int| #![trigger spec_entry_placed(batches, e, db)]
        spec_in_batch(batches, db, e.destination_pass as int) && spec_entry_placed(batches, e, db)
}

/// Records each release whose source is the previous frame in its source queue's prologue
/// batch, and makes the batch of the pass that acquires it wait for that batch.
fn place_entry_releases(
    batches: &mut Vec<RgPassBatch>,
    queues: &Vec<RgQueueAssignment>,
    entry: &Vec<RgEntryRelease>,
    ptb: &Vec<usize>,
)
    requires
        queues@.len() <= old(batches)@.len(),
        forall|i: int| 0 <= i < queues@.len() ==> (#[trigger] old(batches)@[i]).queue == queues@[i]
            && old(batches)@[i].passes.start == 0,
        forall|j: int| 0 <= j < entry@.len() ==> queues@.contains((#[trigger] entry@[j]).source_queue),
        forall|j: int| 0 <= j < entry@.len() ==> (#[trigger] entry@[j]).destination_pass < ptb@.len(),
        forall|q: int| 0 <= q < ptb@.len() ==> (#[trigger] ptb@[q]) < old(batches)@.len(),
        forall|q: int| 0 <= q < ptb@.len() ==> #[trigger] ptb@[q] + 1 >= queues@.len(),
        forall|j: int| 0 <= j < entry@.len() ==> (#[trigger] entry@[j]).source_queue
            != old(batches)@[ptb@[entry@[j].destination_pass as int] as int].queue,
        spec_batch_waits_wf(old(batches)@),
        spec_batch_waits_backward(old(batches)@),
    ensures
        spec_batches_grow(old(batches)@, final(batches)@),
        spec_batch_waits_wf(final(batches)@),
        spec_batch_waits_backward(final(batches)@),
        forall|j: int| 0 <= j < entry@.len() ==> spec_entry_placed(
            final(batches)@,
            #[trigger] entry@[j],
            ptb@[entry@[j].destination_pass as int] as int,
        ),
        spec_waits_explained(old(batches)@, final(batches)@, |b: int, w: usize| spec_entry_wait(ptb@, entry@, queues@, b, w)),
        spec_entries_explained(
            old(batches)@,
            final(batches)@,
            |b: int, x: RgImageBarrier| spec_entry_release_of(entry@, queues@, b, RgQueueReleaseBarrier::Image(x)),
            |b: int, x: RgBufferBarrier| spec_entry_release_of(entry@, queues@, b, RgQueueReleaseBarrier::Buffer(x)),
        ),
{
    let ghost start = batches@;
    let ghost why = |b: int, w: usize| spec_entry_wait(ptb@, entry@, queues@, b, w);
    let ghost why_image = |b: int, x: RgImageBarrier| spec_entry_release_of(entry@, queues@, b, RgQueueReleaseBarrier::Image(x));
    let ghost why_buffer = |b: int, x: RgBufferBarrier| spec_entry_release_of(entry@, queues@, b, RgQueueReleaseBarrier::Buffer(x));
    proof {
        lemma_grow_refl(start);
        lemma_explained_refl(start, why, why_image, why_buffer);
    }
    let mut k: usize = 0;
    while k < entry.len()
        invariant
            k <= entry@.len(),
            queues@.len() <= start.len(),
            forall|i: int| 0 <= i < queues@.len() ==> (#[trigger] start[i]).queue == queues@[i] && start[i].passes.start == 0,
            forall|j: int| 0 <= j < entry@.len() ==> queues@.contains((#[trigger] entry@[j]).source_queue),
            forall|j: int| 0 <= j < entry@.len() ==> (#[trigger] entry@[j]).destination_pass < ptb@.len(),
            forall|q: int| 0 <= q < ptb@.len() ==> (#[trigger] ptb@[q]) < start.len(),
            forall|q: int| 0 <= q < ptb@.len() ==> #[trigger] ptb@[q] + 1 >= queues@.len(),
            forall|j: int| 0 <= j < entry@.len() ==> (#[trigger] entry@[j]).source_queue
                != start[ptb@[entry@[j].destination_pass as int] as int].queue,
            spec_batches_grow(start, batches@),
            spec_batch_waits_wf(batches@),
            spec_batch_waits_backward(batches@),
            forall|j: int| 0 <= j < k ==> spec_entry_placed(batches@, #[trigger] entry@[j], ptb@[entry@[j].destination_pass as int] as int),
            why == (|b: int, w: usize| spec_entry_wait(ptb@, entry@, queues@, b, w)),
            why_image == (|b: int, x: RgImageBarrier| spec_entry_release_of(entry@, queues@, b, RgQueueReleaseBarrier::Image(x))),
            why_buffer == (|b: int, x: RgBufferBarrier| spec_entry_release_of(entry@, queues@, b, RgQueueReleaseBarrier::Buffer(x))),
            spec_waits_explained(start, batches@, why),
            spec_entries_explained(start, batches@, why_image, why_buffer),
        decreases entry.len() - k,
    {
        let release = entry[k];
        proof {
            assert(queues@.contains(entry@[k as int].source_queue));
        }
        let release_batch = match queue_position(queues, release.source_queue) {
            Some(i) => i,
            None => 0,
        };
        let ghost old_b = batches@;
        let ghost rb = release_batch as int;
        proof {
            assert(start[rb].queue == release.source_queue);
            assert(old_b[rb].queue == start[rb].queue);
            assert(old_b[rb].passes == start[rb].passes);
        }
        match release.barrier {
            RgQueueReleaseBarrier::Image(x) => {
                push_entry_image(&mut batches[release_batch], x);
                proof {
                    lemma_grow_one(old_b, batches@, rb);
                }
            },
            RgQueueReleaseBarrier::Buffer(x) => {
                push_entry_buffer(&mut batches[release_batch], x);
                proof {
                    lemma_grow_one(old_b, batches@, rb);
                }
            },
            RgQueueReleaseBarrier::Dependency => {
                proof {
                    lemma_grow_refl(old_b);
                }
            },
        }
        let ghost mid_b = batches@;
        proof {
            assert(entry@[k as int] == release);
            assert(rb < queues@.len() && queues@[rb] == release.source_queue);
            lemma_entries_explained_step(start, old_b, mid_b, rb, release.barrier, why_image, why_buffer);
            lemma_waits_explained_step(start, old_b, mid_b, rb, release_batch, why);
            lemma_waits_wf_step(old_b, mid_b, rb, release_batch);
            lemma_backward_step(old_b, mid_b, rb, release_batch);
            assert(ptb@[release.destination_pass as int] < start.len());
        }
        let destination_batch = ptb[release.destination_pass];
        add_batch_wait(&mut batches[destination_batch], release_batch);
        proof {
            let db = destination_batch as int;
            assert(ptb@[entry@[k as int].destination_pass as int] == db);
            assert(why(db, release_batch));
            lemma_waits_explained_step(start, mid_b, batches@, db, release_batch, why);
            lemma_entries_explained_step(start, mid_b, batches@, db, RgQueueReleaseBarrier::Dependency, why_image, why_buffer);
            lemma_grow_one(mid_b, batches@, db);
            lemma_grow_trans(old_b, mid_b, batches@);
            lemma_grow_trans(start, old_b, batches@);
            lemma_waits_wf_step(mid_b, batches@, db, release_batch);
            assert(entry@[k as int] == release);
            assert(ptb@[release.destination_pass as int] + 1 >= queues@.len());
            assert(start[db].queue != start[rb].queue);
            lemma_backward_step(mid_b, batches@, db, release_batch);
            assert(batches@[db].wait_for_batches@.contains(rb as usize));
            assert(batches@[rb].queue == release.source_queue);
            assert(batches@[rb].passes.start == 0);
            assert(batches@[rb].entry_release_images@ == mid_b[rb].entry_release_images@);
            assert(batches@[rb].entry_release_buffers@ == mid_b[rb].entry_release_buffers@);
            assert(spec_entry_placed(batches@, release, db));
            assert forall|j: int| 0 <= j < k + 1 implies spec_entry_placed(
                batches@,
                #[trigger] entry@[j],
                ptb@[entry@[j].destination_pass as int] as int,
            ) by {
                if j < k {
                    lemma_entry_placed_grows(old_b, batches@, entry@[j], ptb@[entry@[j].destination_pass as int] as int);
                }
            }
        }
        k = k + 1;
    }
}

/// Makes each pass's batch wait for the batch of every source pass it waits for, when that
/// batch is another.
fn add_pass_waits(batches: &mut Vec<RgPassBatch>, passes: &Vec<RgPassBarriers>, ptb: &Vec<usize>)
    requires
        ptb@.len() == passes@.len(),
        forall|q: int| 0 <= q < ptb@.len() ==> (#[trigger] ptb@[q]) < old(batches)@.len(),
        forall|q1: int, q2: int| 0 <= q1 <= q2 < ptb@.len() ==> #[trigger] ptb@[q1] <= #[trigger] ptb@[q2],
        spec_waits_wf(spec_schedule(passes@)),
        spec_batch_waits_wf(old(batches)@),
    ensures
        spec_batches_grow(old(batches)@, final(batches)@),
        spec_batch_waits_wf(final(batches)@),
        spec_pass_waits_done(final(batches)@, spec_schedule(passes@), ptb@, passes@.len() as int),
        (spec_batch_waits_backward(old(batches)@) && spec_schedule_waits_backward(spec_schedule(passes@)))
            ==> spec_batch_waits_backward(final(batches)@),
        spec_waits_explained(old(batches)@, final(batches)@, |b: int, w: usize| spec_pass_wait(ptb@, spec_schedule(passes@), b, w)),
        forall|i: int| 0 <= i < old(batches)@.len() ==> (#[trigger] final(batches)@[i]).entry_release_images@
            == old(batches)@[i].entry_release_images@ && final(batches)@[i].entry_release_buffers@
            == old(batches)@[i].entry_release_buffers@,
{
    let n = passes.len();
    let ghost schedule = spec_schedule(passes@);
    let ghost start = batches@;
    let ghost ordered = spec_batch_waits_backward(start) && spec_schedule_waits_backward(schedule);
    let ghost why = |b: int, w: usize| spec_pass_wait(ptb@, schedule, b, w);
    proof {
        lemma_grow_refl(start);
        lemma_explained_refl(start, why, |b: int, x: RgImageBarrier| true, |b: int, x: RgBufferBarrier| true);
    }
    let mut p: usize = 0;
    while p < n
        invariant
            p <= n,
            n == passes@.len(),
            schedule == spec_schedule(passes@),
            spec_waits_wf(schedule),
            ordered == (spec_batch_waits_backward(start) && spec_schedule_waits_backward(schedule)),
            ordered ==> spec_batch_waits_backward(batches@),
            forall|q1: int, q2: int| 0 <= q1 <= q2 < ptb@.len() ==> #[trigger] ptb@[q1] <= #[trigger] ptb@[q2],
            ptb@.len() == n,
            forall|q: int| 0 <= q < n ==> (#[trigger] ptb@[q]) < start.len(),
            spec_batches_grow(start, batches@),
            spec_batch_waits_wf(batches@),
            spec_pass_waits_done(batches@, schedule, ptb@, p as int),
            why == (|b: int, w: usize| spec_pass_wait(ptb@, schedule, b, w)),
            spec_waits_explained(start, batches@, why),
            forall|i: int| 0 <= i < start.len() ==> (#[trigger] batches@[i]).entry_release_images@
                == start[i].entry_release_images@ && batches@[i].entry_release_buffers@ == start[i].entry_release_buffers@,
        decreases n - p,
    {
        let pb = ptb[p];
        proof {
            assert(passes@[p as int]@ == schedule[p as int]);
            assert(pb < start.len());
        }
        let mut j: usize = 0;
        while j < passes[p].wait_for_passes.len()
            invariant
                p < n,
                n == passes@.len(),
                j <= passes@[p as int].wait_for_passes@.len(),
                schedule == spec_schedule(passes@),
                passes@[p as int]@ == schedule[p as int],
                spec_waits_wf(schedule),
                ordered == (spec_batch_waits_backward(start) && spec_schedule_waits_backward(schedule)),
                ordered ==> spec_batch_waits_backward(batches@),
                forall|q1: int, q2: int| 0 <= q1 <= q2 < ptb@.len() ==> #[trigger] ptb@[q1] <= #[trigger] ptb@[q2],
                ptb@.len() == n,
                forall|q: int| 0 <= q < n ==> (#[trigger] ptb@[q]) < start.len(),
                pb == ptb@[p as int],
                spec_batches_grow(start, batches@),
                spec_batch_waits_wf(batches@),
                spec_pass_waits_done(batches@, schedule, ptb@, p as int),
                forall|j2: int| 0 <= j2 < j && ptb@[#[trigger] schedule[p as int].wait_for_passes[j2] as int] != pb
                    ==> batches@[pb as int].wait_for_batches@.contains(ptb@[schedule[p as int].wait_for_passes[j2] as int]),
                why == (|b: int, w: usize| spec_pass_wait(ptb@, schedule, b, w)),
                spec_waits_explained(start, batches@, why),
                forall|i: int| 0 <= i < start.len() ==> (#[trigger] batches@[i]).entry_release_images@
                    == start[i].entry_release_images@ && batches@[i].entry_release_buffers@ == start[i].entry_release_buffers@,
            decreases passes@[p as int].wait_for_passes@.len() - j,
        {
            let src = passes[p].wait_for_passes[j];
            proof {
                assert(schedule[p as int].wait_for_passes[j as int] == src);
                assert(src < n);
            }
            let sb = ptb[src];
            if sb != pb {
                let ghost old_b = batches@;
                add_batch_wait(&mut batches[pb], sb);
                proof {
                    assert(ptb@[schedule[p as int].wait_for_passes[j as int] as int] == sb);
                    assert(why(pb as int, sb));
                    lemma_waits_explained_step(start, old_b, batches@, pb as int, sb, why);
                    lemma_grow_one(old_b, batches@, pb as int);
                    lemma_grow_trans(start, old_b, batches@);
                    lemma_waits_wf_step(old_b, batches@, pb as int, sb);
                    if ordered {
                        assert(schedule[p as int].wait_for_passes[j as int] < p);
                        assert(ptb@[src as int] <= ptb@[p as int]);
                        lemma_backward_step(old_b, batches@, pb as int, sb);
                    }
                    lemma_pass_waits_grow(old_b, batches@, schedule, ptb@, p as int);
                    assert forall|j2: int| 0 <= j2 < j + 1 && ptb@[#[trigger] schedule[p as int].wait_for_passes[j2] as int] != pb
                        implies batches@[pb as int].wait_for_batches@.contains(ptb@[schedule[p as int].wait_for_passes[j2] as int]) by {
                        if j2 < j {
                            lemma_prefix_contains(
                                old_b[pb as int].wait_for_batches@,
                                batches@[pb as int].wait_for_batches@,
                                ptb@[schedule[p as int].wait_for_passes[j2] as int],
                            );
                        }
                    }
                }
            }
            j = j + 1;
        }
        p = p + 1;
    }
}

impl RenderGraph {
    /// Compiles barriers into maximal contiguous queue batches: a prologue batch per source
    /// queue of the previous frame's releases, then one batch per run of consecutive passes on
    /// one queue, each waiting for the batches its passes acquire from.
    #[verifier::spinoff_prover]
    #[verifier::rlimit(40)]
    pub fn submission_plan(&self, families: RgQueueFamilies) -> (plan: RgSubmissionPlan)
        requires
            spec_graph_wf(*self),
            spec_refs_below(spec_table(self.resources@), self.passes@.len() as int),
            spec_entry_consistent(spec_compile(*self, families, self.passes@.len() as int).entry, families),
        ensures
            ({
                let c = spec_compile(*self, families, self.passes@.len() as int);
                let batches = plan.batches@;
                &&& spec_schedule(plan.passes@) == c.schedule
                &&& spec_table(plan.exit_resources@) == c.table
                &&& spec_batches_chain(batches, self.passes@.len() as int)
                &&& spec_batches_on_queues(batches, c.schedule)
                &&& spec_batch_waits_wf(batches)
                &&& forall|k: int| 0 <= k < c.entry.len() ==> spec_entry_recorded(batches, #[trigger] c.entry[k])
                &&& forall|p: int, j: int, pb: int, sb: int|
                    0 <= p < c.schedule.len() && 0 <= j < c.schedule[p].wait_for_passes.len()
                    && spec_in_batch(batches, pb, p) && spec_in_batch(batches, sb, #[trigger] c.schedule[p].wait_for_passes[j] as int)
                    && sb != pb ==> #[trigger] batches[pb].wait_for_batches@.contains(sb as usize)
                &&& spec_prologue_layout(batches, c.entry)
                &&& spec_plan_reasons(batches, c.schedule, c.entry)
                &&& forall|b: int| 0 <= b < batches.len() && (#[trigger] batches[b]).passes.end
                    <= batches[b].passes.start ==> spec_released_from(c.entry, batches[b].queue)
            }),
            spec_refs_below(spec_table(self.resources@), 0) ==> spec_batch_waits_backward(plan.batches@),
            families.async_compute is None ==> plan.batches@.len() <= 1 && spec_count_batches(
                plan.batches@,
                RgQueueAssignment::AsyncCompute,
            ) == 0,
    {
        let n = self.passes.len();
        let (passes, exit_resources, entry_releases) = self.compile_barriers(families);
        let ghost c = spec_compile(*self, families, n as int);
        proof {
            lemma_compile_queue(*self, families, n as int);
            lemma_compile_entry_below(*self, families, n as int);
            lemma_compile_order(*self, families, n as int);
        }
        let (mut batches, queues) = prologue_batches(&entry_releases);
        proof {
            assert forall|i: int, j: int| #![trigger batches@[i], batches@[j]] 0 <= i && j == i + 1 && j < batches@.len()
                implies batches@[j].passes.start == batches@[i].passes.end && batches@[j].queue != batches@[i].queue by {
                assert(queues@[i] != queues@[j]);
            }
        }
        let ghost prologue = batches@;
        let pass_to_batch = append_pass_batches(&mut batches, &passes);
        let ghost layout = batches@;
        proof {
            assert forall|q: int| 0 <= q < pass_to_batch@.len() implies (#[trigger] pass_to_batch@[q]) < batches@.len() by {
                assert(spec_in_batch(batches@, pass_to_batch@[q] as int, q));
            }
            assert forall|i: int| 0 <= i < queues@.len() implies (#[trigger] batches@[i]).queue == queues@[i]
                && batches@[i].passes.start == 0 by {
                assert(prologue[i].queue == queues@[i]);
            }
            assert forall|i: int| 0 <= i < batches@.len() implies (#[trigger] batches@[i]).wait_for_batches@.no_duplicates()
                && forall|j: int| 0 <= j < batches@[i].wait_for_batches@.len() ==> batches@[i].wait_for_batches@[j] < batches@.len() by {
                assert(batches@[i].wait_for_batches@.len() == 0);
            }
            assert forall|i: int, j: int| 0 <= i < batches@.len() && 0 <= j < batches@[i].wait_for_batches@.len()
                implies #[trigger] batches@[i].wait_for_batches@[j] < i by {
                assert(batches@[i].wait_for_batches@.len() == 0);
            }
            assert forall|j: int| 0 <= j < entry_releases@.len() implies (#[trigger] entry_releases@[j]).source_queue
                != batches@[pass_to_batch@[entry_releases@[j].destination_pass as int] as int].queue by {
                let d = entry_releases@[j].destination_pass as int;
                assert(entry_releases@[j] == c.entry[j]);
                assert(spec_in_batch(batches@, pass_to_batch@[d] as int, d));
            }
            assert forall|q1: int, q2: int| 0 <= q1 <= q2 < pass_to_batch@.len() implies #[trigger] pass_to_batch@[q1]
                <= #[trigger] pass_to_batch@[q2] by {
                let b1 = pass_to_batch@[q1] as int;
                let b2 = pass_to_batch@[q2] as int;
                assert(spec_in_batch(batches@, b1, q1));
                assert(spec_in_batch(batches@, b2, q2));
                if b2 < b1 {
                    lemma_chain_order(batches@, n as int, b2, b1);
                }
            }
        }
        place_entry_releases(&mut batches, &queues, &entry_releases, &pass_to_batch);
        let ghost placed = batches@;
        add_pass_waits(&mut batches, &passes, &pass_to_batch);
        proof {
            let b = batches@;
            lemma_grow_trans(layout, placed, b);
            lemma_layout_chain(layout, b, n as int);
            assert forall|x: int, q: int| spec_in_batch(b, x, q) implies #[trigger] b[x].queue == #[trigger] c.schedule[q].queue by {
                lemma_layout_in_batch(layout, b, x, q);
                assert(b[x].queue == layout[x].queue);
            }
            assert forall|kk: int| 0 <= kk < c.entry.len() implies spec_entry_recorded(b, #[trigger] c.entry[kk]) by {
                let d = c.entry[kk].destination_pass as int;
                let db = pass_to_batch@[d] as int;
                assert(entry_releases@[kk] == c.entry[kk]);
                lemma_entry_placed_grows(placed, b, c.entry[kk], db);
                assert(spec_in_batch(layout, db, d));
                lemma_layout_in_batch(layout, b, db, d);
            }
            assert forall|q: int, j: int, pb: int, sb: int|
                0 <= q < c.schedule.len() && 0 <= j < c.schedule[q].wait_for_passes.len()
                && spec_in_batch(b, pb, q) && spec_in_batch(b, sb, #[trigger] c.schedule[q].wait_for_passes[j] as int)
                && sb != pb implies #[trigger] b[pb].wait_for_batches@.contains(sb as usize) by {
                let w = c.schedule[q].wait_for_passes[j] as int;
                assert(w < n);
                lemma_layout_in_batch(layout, b, pb, q);
                lemma_layout_in_batch(layout, b, sb, w);
                assert(spec_in_batch(layout, pass_to_batch@[q] as int, q));
                assert(spec_in_batch(layout, pass_to_batch@[w] as int, w));
                lemma_in_batch_unique(layout, n as int, pb, pass_to_batch@[q] as int, q);
                lemma_in_batch_unique(layout, n as int, sb, pass_to_batch@[w] as int, w);
            }
            assert(entry_releases@ =~= c.entry) by {
                assert forall|kk: int| 0 <= kk < c.entry.len() implies entry_releases@[kk] == c.entry[kk] by {}
            }
            assert forall|i: int| 0 <= i < queues@.len() implies (#[trigger] layout[i]).queue == queues@[i]
                && layout[i].passes.start == 0 by {
                assert(prologue[i].queue == queues@[i]);
            }
            lemma_plan_batches_sources(*self, families, layout, b, queues@, c.entry, c.schedule);
            lemma_grow_trans(layout, placed, b);
            lemma_plan_reasons(layout, placed, b, pass_to_batch@, spec_schedule(passes@), entry_releases@, queues@);
        }
        RgSubmissionPlan { passes, batches, exit_resources }
    }
}

/// Every release whose source is the previous frame is acquired by a pass below the number of
/// passes compiled.
pub proof fn lemma_compile_entry_below(g: RenderGraph, families: RgQueueFamilies, upto: int)
    requires
        0 <= upto <= g.passes@.len(),
        g.passes@.len() <= usize::MAX,
    ensures
        forall|j: int| 0 <= j < spec_compile(g, families, upto).entry.len()
            ==> (#[trigger] spec_compile(g, families, upto).entry[j]).destination_pass < upto,
    decreases upto,
{
    if upto > 0 {
        lemma_compile_entry_below(g, families, upto - 1);
        let prev = spec_compile(g, families, upto - 1);
        let p = upto - 1;
        let (queue, queue_family) = spec_resolve_queue(g, g.passes@[p], p, families);
        let d = spec_derive_targets(prev.table, spec_pass_targets(g.passes@[p]), p as usize, queue, queue_family);
        let s1 = prev.schedule.update(
            p,
            RgPassBarriersView { before_images: d.image, before_buffers: d.buffer, ..prev.schedule[p] },
        );
        lemma_distribute_entry_below(s1, prev.entry, p, d.releases, upto);
    }
}

/// Routing a pass's releases adds entry releases acquired by that pass only.
pub proof fn lemma_distribute_entry_below(
    schedule: Seq<RgPassBarriersView>,
    entry: Seq<RgEntryRelease>,
    p: int,
    releases: Seq<RgQueueRelease>,
    bound: int,
)
    requires
        0 <= p < bound,
        p <= usize::MAX,
        forall|j: int| 0 <= j < entry.len() ==> (#[trigger] entry[j]).destination_pass < bound,
    ensures
        forall|j: int| 0 <= j < spec_distribute(schedule, entry, p, releases).1.len()
            ==> (#[trigger] spec_distribute(schedule, entry, p, releases).1[j]).destination_pass < bound,
    decreases releases.len(),
{
    if releases.len() > 0 {
        lemma_distribute_entry_below(schedule, entry, p, releases.drop_last(), bound);
    }
}

} // verus!

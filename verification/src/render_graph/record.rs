//! Pairing a submission plan with the command buffers it records into: the decisions of
//! recording, made before any command is written.
use vstd::prelude::*;
use super::{RgPass, RgQueueAssignment};
use super::graph::{batch_label, spec_batch_label};
use super::plan::{RgPassBatch, RgSubmissionPlan, spec_batches_chain, spec_count_batches};
use crate::renderer::Error;

verus! {

/// One primary command buffer per batch of each queue, by raw handle.
pub struct RgBatchCommandBuffers<'a> {
    /// One primary command buffer per graphics batch.
    pub graphics: &'a [u64],
    /// One primary command buffer per async-compute batch.
    pub compute: &'a [u64],
}

/// A batch ready for timeline-linked queue submission.
pub struct RgRecordedBatch {
    /// Selected queue.
    pub queue: RgQueueAssignment,
    /// The passes the batch covers, as `first…last`: what a hang report names it by.
    pub label: String,
    /// The primary command buffer the batch records into, by raw handle.
    pub command_buffer: u64,
    /// Earlier batch indices whose timeline points this batch waits for.
    pub wait_for_batches: Vec<usize>,
    /// Half-open pass range recorded in the command buffer.
    pub passes: std::ops::Range<usize>,
}

/// The message of a plan recorded against the wrong number of command buffers or passes.
pub open spec fn spec_plan_mismatch_message() -> Seq<char> {
    "render-graph submission plan does not match its command buffers"@
}

/// How many batches before batch `i` run on its queue: the index of its command buffer in that
/// queue's list.
pub open spec fn spec_queue_slot(batches: Seq<RgPassBatch>, i: int) -> nat {
    spec_count_batches(batches.take(i), batches[i].queue)
}

/// The command buffer batch `i` records into.
pub open spec fn spec_batch_command_buffer(
    batches: Seq<RgPassBatch>,
    i: int,
    graphics: Seq<u64>,
    compute: Seq<u64>,
) -> u64 {
    match batches[i].queue {
        RgQueueAssignment::Graphics => graphics[spec_queue_slot(batches, i) as int],
        RgQueueAssignment::AsyncCompute => compute[spec_queue_slot(batches, i) as int],
    }
}

/// Whether the plan fits what it is recorded with: one command buffer per batch of each queue
/// and one pass slot per compiled pass.
pub open spec fn spec_plan_matches(
    plan: RgSubmissionPlan,
    passes: Seq<Option<RgPass>>,
    graphics: Seq<u64>,
    compute: Seq<u64>,
) -> bool {
    &&& graphics.len() == spec_count_batches(plan.batches@, RgQueueAssignment::Graphics)
    &&& compute.len() == spec_count_batches(plan.batches@, RgQueueAssignment::AsyncCompute)
    &&& plan.passes@.len() == passes.len()
}

/// Whether every batch that covers passes ends within the `n` compiled passes.
pub open spec fn spec_batches_in_range(batches: Seq<RgPassBatch>, n: int) -> bool {
    forall|b: int| 0 <= b < batches.len() ==> (#[trigger] batches[b]).passes.end <= batches[b].passes.start
        || batches[b].passes.end <= n
}

/// Counting batches of a queue over a longer prefix never gives fewer.
proof fn lemma_count_prefix_grows(batches: Seq<RgPassBatch>, i: int, queue: RgQueueAssignment)
    requires
        0 <= i <= batches.len(),
    ensures
        spec_count_batches(batches.take(i), queue) <= spec_count_batches(batches, queue),
    decreases batches.len() - i,
{
    if i < batches.len() {
        lemma_count_prefix_grows(batches, i + 1, queue);
        assert(batches.take(i + 1).drop_last() =~= batches.take(i));
    } else {
        assert(batches.take(i) =~= batches);
    }
}

impl RgSubmissionPlan {
    /// Whether the batches lay the plan's passes end to end (see [`spec_batches_chain`]): the
    /// first from pass 0, each from where the previous ends, the last to the final pass, and
    /// neighbours on different queues.
    pub fn is_chained(&self) -> (r: bool)
        ensures
            r == spec_batches_chain(self.batches@, self.passes@.len() as int),
    {
        let n = self.passes.len();
        let batches = &self.batches;
        if batches.len() == 0 {
            return n == 0;
        }
        if batches[0].passes.start != 0 || batches[batches.len() - 1].passes.end != n {
            return false;
        }
        let mut i: usize = 0;
        while i < batches.len()
            invariant
                n == self.passes@.len(),
                batches@ == self.batches@,
                batches@.len() > 0,
                batches@[0].passes.start == 0 && batches@.last().passes.end == n,
                i <= batches@.len(),
                forall|k: int| 0 <= k < i ==> (#[trigger] batches@[k]).passes.start <= batches@[k].passes.end,
                forall|k: int, j: int| #![trigger batches@[k], batches@[j]] 0 <= k && j == k + 1 && j < i
                    ==> batches@[j].passes.start == batches@[k].passes.end && batches@[j].queue != batches@[k].queue,
            decreases batches.len() - i,
        {
            let b = &batches[i];
            if b.passes.start > b.passes.end {
                return false;
            }
            if i > 0 {
                let prev = &batches[i - 1];
                if b.passes.start != prev.passes.end || b.queue == prev.queue {
                    assert(!spec_batches_chain(self.batches@, n as int)) by {
                        let k = i as int - 1;
                        let j = i as int;
                        assert(0 <= k && j == k + 1 && j < self.batches@.len());
                    }
                    return false;
                }
            }
            i = i + 1;
        }
        true
    }

    /// Pairs each batch with the command buffer it records into (the next unused one of its
    /// queue), its label, its waits and its pass range, before anything is recorded.
    ///
    /// # Errors
    ///
    /// [`Error::InvalidUploadData`] when the command buffers do not number one per batch of
    /// each queue, or `passes` does not hold one slot per compiled pass.
    pub fn recorded_batches(
        &self,
        passes: &[Option<RgPass>],
        commands: &RgBatchCommandBuffers,
    ) -> (r: Result<Vec<RgRecordedBatch>, Error>)
        requires
            spec_batches_in_range(self.batches@, self.passes@.len() as int),
        ensures
            !spec_plan_matches(*self, passes@, commands.graphics@, commands.compute@) ==> (r matches Err(
                Error::InvalidUploadData(m),
            ) && m@ == spec_plan_mismatch_message()),
            spec_plan_matches(*self, passes@, commands.graphics@, commands.compute@) ==> (r matches Ok(v)
                && v@.len() == self.batches@.len() && forall|i: int|
                0 <= i < v@.len() ==> {
                    let b = self.batches@[i];
                    &&& (#[trigger] v@[i]).queue == b.queue
                    &&& v@[i].passes == b.passes
                    &&& v@[i].wait_for_batches@ == b.wait_for_batches@
                    &&& v@[i].label@ == spec_batch_label(passes@, b.passes)
                    &&& v@[i].command_buffer == spec_batch_command_buffer(
                        self.batches@,
                        i,
                        commands.graphics@,
                        commands.compute@,
                    )
                }),
    {
        if commands.graphics.len() != self.graphics_batch_count() || commands.compute.len()
            != self.compute_batch_count() || self.passes.len() != passes.len() {
            return Err(
                Error::InvalidUploadData(
                    String::from_str("render-graph submission plan does not match its command buffers"),
                ),
            );
        }
        let ghost batches = self.batches@;
        let mut out: Vec<RgRecordedBatch> = Vec::new();
        let mut graphics_index: usize = 0;
        let mut compute_index: usize = 0;
        let mut i: usize = 0;
        while i < self.batches.len()
            invariant
                batches == self.batches@,
                spec_batches_in_range(batches, self.passes@.len() as int),
                spec_plan_matches(*self, passes@, commands.graphics@, commands.compute@),
                i <= batches.len(),
                graphics_index == spec_count_batches(batches.take(i as int), RgQueueAssignment::Graphics),
                compute_index == spec_count_batches(
                    batches.take(i as int),
                    RgQueueAssignment::AsyncCompute,
                ),
                out@.len() == i,
                forall|k: int|
                    0 <= k < i ==> {
                        let b = batches[k];
                        &&& (#[trigger] out@[k]).queue == b.queue
                        &&& out@[k].passes == b.passes
                        &&& out@[k].wait_for_batches@ == b.wait_for_batches@
                        &&& out@[k].label@ == spec_batch_label(passes@, b.passes)
                        &&& out@[k].command_buffer == spec_batch_command_buffer(
                            batches,
                            k,
                            commands.graphics@,
                            commands.compute@,
                        )
                    },
            decreases batches.len() - i,
        {
            let batch = &self.batches[i];
            proof {
                assert(batches.take(i as int + 1).drop_last() =~= batches.take(i as int));
                lemma_count_prefix_grows(batches, i as int + 1, batch.queue);
                assert(batch.passes.end <= batch.passes.start || batch.passes.end <= passes@.len());
            }
            let command_buffer = match batch.queue {
                RgQueueAssignment::Graphics => {
                    let command = commands.graphics[graphics_index];
                    graphics_index = graphics_index + 1;
                    command
                },
                RgQueueAssignment::AsyncCompute => {
                    let command = commands.compute[compute_index];
                    compute_index = compute_index + 1;
                    command
                },
            };
            let waits = batch.wait_for_batches.clone();
            proof {
                assert(waits@ =~= batch.wait_for_batches@);
            }
            let label = batch_label(passes, batch.passes.start..batch.passes.end);
            out.push(
                RgRecordedBatch {
                    queue: batch.queue,
                    label,
                    command_buffer,
                    wait_for_batches: waits,
                    passes: batch.passes.start..batch.passes.end,
                },
            );
            i = i + 1;
        }
        Ok(out)
    }
}

} // verus!

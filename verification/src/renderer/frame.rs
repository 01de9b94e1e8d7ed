//! The timeline points a frame's submissions wait on and signal.
use vstd::prelude::*;
use super::Error;
use crate::render_graph::RgQueueAssignment;
use crate::render_graph::plan::{RgPassBatch, spec_batch_waits_backward};

verus! {

/// A point on a timeline semaphore: the semaphore (raw handle) and the value it reaches.
#[derive(Clone, Copy, Debug, PartialEq, Eq, Structural)]
pub struct FrameTimelinePoint {
    /// The timeline semaphore's raw handle.
    pub semaphore: u64,
    /// The counter value.
    pub value: u64,
}

/// The position of the first point on `semaphore`, if any.
pub open spec fn spec_first_on(points: Seq<FrameTimelinePoint>, semaphore: u64) -> Option<int> {
    if exists|i: int| 0 <= i < points.len() && points[i].semaphore == semaphore {
        Some(choose|i: int| 0 <= i < points.len() && points[i].semaphore == semaphore
            && forall|k: int| 0 <= k < i ==> points[k].semaphore != semaphore)
    } else {
        None
    }
}

/// Adds a wait on `point`: a wait already on its semaphore waits for the larger of the two
/// values; otherwise the point is appended.
pub open spec fn spec_merge(points: Seq<FrameTimelinePoint>, point: FrameTimelinePoint) -> Seq<FrameTimelinePoint> {
    match spec_first_on(points, point.semaphore) {
        Some(i) => points.update(
            i,
            FrameTimelinePoint {
                semaphore: point.semaphore,
                value: if points[i].value < point.value { point.value } else { points[i].value },
            },
        ),
        None => points.push(point),
    }
}

/// Adds a wait on `point` to a wait list: a wait already on its semaphore waits for the larger
/// of the two values; otherwise the point is appended.
pub fn merge_timeline_point(points: &mut Vec<FrameTimelinePoint>, point: FrameTimelinePoint)
    ensures
        final(points)@ == spec_merge(old(points)@, point),
{
    let mut i: usize = 0;
    while i < points.len()
        invariant
            i <= points@.len(),
            points@ == old(points)@,
            forall|k: int| 0 <= k < i ==> points@[k].semaphore != point.semaphore,
        decreases points.len() - i,
    {
        if points[i].semaphore == point.semaphore {
            let existing = points[i];
            proof {
                let f = spec_first_on(old(points)@, point.semaphore);
                assert(0 <= i < points@.len() && points@[i as int].semaphore == point.semaphore);
                let j = choose|j: int| 0 <= j < old(points)@.len() && old(points)@[j].semaphore == point.semaphore
                    && forall|k: int| 0 <= k < j ==> old(points)@[k].semaphore != point.semaphore;
                assert(j == i) by {
                    if j < i {
                        assert(old(points)@[j].semaphore != point.semaphore);
                    } else if j > i {
                        assert(old(points)@[i as int].semaphore != point.semaphore);
                    }
                }
                assert(f == Some(i as int));
            }
            let value = if existing.value < point.value {
                point.value
            } else {
                existing.value
            };
            points.set(i, FrameTimelinePoint { semaphore: point.semaphore, value });
            return ;
        }
        i = i + 1;
    }
    points.push(point);
}

/// No two points of a wait list are on one semaphore.
pub open spec fn spec_distinct_semaphores(points: Seq<FrameTimelinePoint>) -> bool {
    forall|i: int, j: int| 0 <= i < j < points.len() ==> points[i].semaphore != points[j].semaphore
}

/// Merging keeps a wait list's semaphores distinct, and the merged wait reaches at least the
/// merged point's value.
pub proof fn lemma_merge_keeps_distinct(points: Seq<FrameTimelinePoint>, point: FrameTimelinePoint)
    requires
        spec_distinct_semaphores(points),
    ensures
        spec_distinct_semaphores(spec_merge(points, point)),
        exists|i: int| 0 <= i < spec_merge(points, point).len() && spec_merge(points, point)[i].semaphore == point.semaphore
            && spec_merge(points, point)[i].value >= point.value,
{
    let m = spec_merge(points, point);
    match spec_first_on(points, point.semaphore) {
        Some(i) => {
            assert(m[i].semaphore == point.semaphore && m[i].value >= point.value);
        },
        None => {
            assert(m[points.len() as int].semaphore == point.semaphore);
        },
    }
}

/// The waits of a batch on `queue` that waits for the batches `wait_for_batches`: an async
/// compute batch waits for the frame's prefix submission, then every batch for the point of
/// each batch it waits for, merged per semaphore; `None` when it names a batch not yet
/// submitted (one at or past `submitted.len()`).
pub open spec fn spec_batch_waits(
    queue: RgQueueAssignment,
    wait_for_batches: Seq<usize>,
    submitted: Seq<FrameTimelinePoint>,
    prefix: FrameTimelinePoint,
) -> Option<Seq<FrameTimelinePoint>>
    decreases wait_for_batches.len(),
{
    if wait_for_batches.len() == 0 {
        Some(if queue == RgQueueAssignment::AsyncCompute { seq![prefix] } else { Seq::empty() })
    } else {
        match spec_batch_waits(queue, wait_for_batches.drop_last(), submitted, prefix) {
            Some(w) => if wait_for_batches.last() < submitted.len() {
                Some(spec_merge(w, submitted[wait_for_batches.last() as int]))
            } else {
                None
            },
            None => None,
        }
    }
}

/// The message a submission is refused with when a batch waits on one not yet submitted.
pub open spec fn spec_dependency_order_message() -> Seq<char> {
    "render-graph batch dependency does not precede its consumer"@
}

/// The timeline points a batch submission waits on, given the points of the batches submitted
/// before it (in plan order) and the frame's prefix point.
///
/// # Errors
///
/// [`Error::InvalidUploadData`] when the batch waits on a batch that has not been submitted.
pub fn batch_wait_points(
    queue: RgQueueAssignment,
    wait_for_batches: &[usize],
    submitted: &[FrameTimelinePoint],
    prefix: FrameTimelinePoint,
) -> (r: Result<Vec<FrameTimelinePoint>, Error>)
    ensures
        spec_batch_waits(queue, wait_for_batches@, submitted@, prefix) matches Some(w) ==> (r matches Ok(v) && v@ == w),
        spec_batch_waits(queue, wait_for_batches@, submitted@, prefix) is None ==> (r matches Err(Error::InvalidUploadData(m))
            && m@ == spec_dependency_order_message()),
{
    let mut waits: Vec<FrameTimelinePoint> = Vec::new();
    if queue == RgQueueAssignment::AsyncCompute {
        merge_timeline_point(&mut waits, prefix);
        assert(spec_first_on(Seq::<FrameTimelinePoint>::empty(), prefix.semaphore) is None);
        assert(waits@ =~= seq![prefix]);
    }
    let mut k: usize = 0;
    while k < wait_for_batches.len()
        invariant
            k <= wait_for_batches@.len(),
            spec_batch_waits(queue, wait_for_batches@.take(k as int), submitted@, prefix) == Some(waits@),
        decreases wait_for_batches.len() - k,
    {
        assert(wait_for_batches@.take(k as int + 1).drop_last() =~= wait_for_batches@.take(k as int));
        let source = wait_for_batches[k];
        if source >= submitted.len() {
            proof {
                lemma_batch_waits_stay_none(queue, wait_for_batches@, submitted@, prefix, k as int + 1);
            }
            return Err(Error::InvalidUploadData(String::from_str("render-graph batch dependency does not precede its consumer")));
        }
        merge_timeline_point(&mut waits, submitted[source]);
        k = k + 1;
    }
    assert(wait_for_batches@.take(k as int) =~= wait_for_batches@);
    Ok(waits)
}

/// Once a prefix of the waits names a batch not yet submitted, so does every longer prefix.
pub proof fn lemma_batch_waits_stay_none(
    queue: RgQueueAssignment,
    wait_for_batches: Seq<usize>,
    submitted: Seq<FrameTimelinePoint>,
    prefix: FrameTimelinePoint,
    n: int,
)
    requires
        0 < n <= wait_for_batches.len(),
        spec_batch_waits(queue, wait_for_batches.take(n), submitted, prefix) is None,
    ensures
        spec_batch_waits(queue, wait_for_batches, submitted, prefix) is None,
    decreases wait_for_batches.len() - n,
{
    if n < wait_for_batches.len() {
        assert(wait_for_batches.take(n + 1).drop_last() =~= wait_for_batches.take(n));
        lemma_batch_waits_stay_none(queue, wait_for_batches, submitted, prefix, n + 1);
    } else {
        assert(wait_for_batches.take(n) =~= wait_for_batches);
    }
}

/// A batch that waits only for batches already submitted is never refused.
pub proof fn lemma_backward_waits_submit(
    queue: RgQueueAssignment,
    wait_for_batches: Seq<usize>,
    submitted: Seq<FrameTimelinePoint>,
    prefix: FrameTimelinePoint,
)
    requires
        forall|j: int| 0 <= j < wait_for_batches.len() ==> #[trigger] wait_for_batches[j] < submitted.len(),
    ensures
        spec_batch_waits(queue, wait_for_batches, submitted, prefix) is Some,
    decreases wait_for_batches.len(),
{
    if wait_for_batches.len() > 0 {
        let rest = wait_for_batches.drop_last();
        assert forall|j: int| 0 <= j < rest.len() implies #[trigger] rest[j] < submitted.len() by {
            assert(rest[j] == wait_for_batches[j]);
        }
        lemma_backward_waits_submit(queue, rest, submitted, prefix);
        assert(wait_for_batches.last() == wait_for_batches[wait_for_batches.len() - 1]);
    }
}

/// The wait of a frame's tail submission: the point of the last async-compute batch, if any.
pub open spec fn spec_tail_wait(queues: Seq<RgQueueAssignment>, points: Seq<FrameTimelinePoint>) -> Option<FrameTimelinePoint>
    decreases queues.len(),
{
    if queues.len() == 0 || points.len() < queues.len() {
        None
    } else if queues.last() == RgQueueAssignment::AsyncCompute {
        Some(points[queues.len() - 1])
    } else {
        spec_tail_wait(queues.drop_last(), points)
    }
}

/// The point a frame's tail submission waits on: the point of the last async-compute batch,
/// so the frame's fence cannot signal while compute still reads the slot's resources.
pub fn tail_wait_point(queues: &[RgQueueAssignment], points: &[FrameTimelinePoint]) -> (r: Option<FrameTimelinePoint>)
    requires
        queues@.len() <= points@.len(),
    ensures
        r == spec_tail_wait(queues@, points@),
{
    let mut i: usize = queues.len();
    assert(queues@.take(i as int) =~= queues@);
    while i > 0
        invariant
            i <= queues@.len(),
            queues@.len() <= points@.len(),
            spec_tail_wait(queues@, points@) == spec_tail_wait(queues@.take(i as int), points@),
        decreases i,
    {
        let q = queues[i - 1];
        assert(queues@.take(i as int).last() == q);
        if q == RgQueueAssignment::AsyncCompute {
            return Some(points[i - 1]);
        }
        assert(queues@.take(i as int).drop_last() =~= queues@.take(i as int - 1));
        i = i - 1;
    }
    None
}

/// The message of a frame whose submissions cannot be counted in a `u32`.
pub open spec fn spec_submit_count_message() -> Seq<char> {
    "render-graph submit count exceeds u32"@
}

/// The number of queue submissions a frame of `batch_count` render-graph batches makes (its
/// prefix, each batch, and its tail), saturating at `usize::MAX`.
pub open spec fn spec_submit_total(batch_count: usize) -> int {
    if batch_count + 2 > usize::MAX {
        usize::MAX as int
    } else {
        batch_count + 2
    }
}

/// The number of queue submissions a frame makes: its prefix, one per render-graph batch, and
/// its tail.
///
/// # Errors
///
/// [`Error::InvalidUploadData`] when that number does not fit a `u32`.
pub fn frame_submit_count(batch_count: usize) -> (r: Result<u32, Error>)
    ensures
        spec_submit_total(batch_count) <= u32::MAX ==> r == Ok::<u32, Error>(spec_submit_total(batch_count) as u32),
        spec_submit_total(batch_count) > u32::MAX ==> (r matches Err(Error::InvalidUploadData(m)) && m@
            == spec_submit_count_message()),
{
    let total = batch_count.saturating_add(2);
    if total > u32::MAX as usize {
        return Err(Error::InvalidUploadData(String::from_str("render-graph submit count exceeds u32")));
    }
    Ok(total as u32)
}

/// Submitting a plan's batches in plan order, a batch whose plan waits only for earlier batches
/// is never refused: every batch it waits for has been submitted.
pub proof fn lemma_plan_order_submits(
    batches: Seq<RgPassBatch>,
    i: int,
    submitted: Seq<FrameTimelinePoint>,
    prefix: FrameTimelinePoint,
)
    requires
        spec_batch_waits_backward(batches),
        0 <= i < batches.len(),
        submitted.len() == i,
    ensures
        spec_batch_waits(batches[i].queue, batches[i].wait_for_batches@, submitted, prefix) is Some,
{
    let w = batches[i].wait_for_batches@;
    assert forall|j: int| 0 <= j < w.len() implies #[trigger] w[j] < submitted.len() by {
        assert(batches[i].wait_for_batches@[j] < i);
    }
    lemma_backward_waits_submit(batches[i].queue, w, submitted, prefix);
}

} // verus!

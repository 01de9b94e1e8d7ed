//! Laws of buffer range tracking: an access never leaves two tracked ranges over one byte, the
//! accessed bytes are tracked as one range, and every other byte keeps what it last saw.
use vstd::prelude::*;
use super::{RgBufferAccessState, RgBufferBarrier, RgBufferRange, RgQueueAssignment, RgResourceView, RgUsageInfo};
use super::barriers::{
    RgQueueRelease, RgQueueReleaseBarrier, spec_access_after, spec_access_allowed,
    spec_access_buffer_barriers, spec_access_releases, spec_max, spec_min, spec_overlaps, spec_range_bounds,
    spec_scan_barriers, spec_scan_releases, spec_scan_retained, spec_split_barriers, spec_split_releases,
    spec_split_retained,
};

verus! {

/// Whether tracked range `p` holds byte `x`.
pub open spec fn spec_holds_byte(p: RgBufferAccessState, x: int) -> bool {
    p.start <= x < p.end
}

/// Whether two tracked ranges share no byte.
pub open spec fn spec_apart(a: RgBufferAccessState, b: RgBufferAccessState) -> bool {
    spec_max(a.start, b.start) >= spec_min(a.end, b.end)
}

/// Whether no two tracked ranges share a byte.
pub open spec fn spec_ranges_disjoint(s: Seq<RgBufferAccessState>) -> bool {
    forall|i: int, j: int| 0 <= i < j < s.len() ==> spec_apart(#[trigger] s[i], #[trigger] s[j])
}

/// Whether every tracked range holds at least one byte.
pub open spec fn spec_ranges_nonempty(s: Seq<RgBufferAccessState>) -> bool {
    forall|i: int| 0 <= i < s.len() ==> (#[trigger] s[i]).start < s[i].end
}

/// Whether some tracked range holds byte `x`.
pub open spec fn spec_tracks_byte(s: Seq<RgBufferAccessState>, x: int) -> bool {
    exists|k: int| 0 <= k < s.len() && #[trigger] spec_holds_byte(s[k], x)
}

/// Whether `piece` carries `whole`'s state over a part of `whole`'s bytes.
pub open spec fn spec_piece_of(piece: RgBufferAccessState, whole: RgBufferAccessState) -> bool {
    &&& whole.start <= piece.start
    &&& piece.end <= whole.end
    &&& piece == RgBufferAccessState { start: piece.start, end: piece.end, ..whole }
}

/// Whether `piece` is a part of one of the ranges `prev`, with that range's state.
pub open spec fn spec_part_of_some(piece: RgBufferAccessState, prev: Seq<RgBufferAccessState>) -> bool {
    exists|i: int| 0 <= i < prev.len() && #[trigger] spec_piece_of(piece, prev[i])
}

/// Parts of two ranges that share no byte share no byte either.
proof fn lemma_pieces_apart(
    a: RgBufferAccessState,
    wa: RgBufferAccessState,
    b: RgBufferAccessState,
    wb: RgBufferAccessState,
)
    requires
        spec_piece_of(a, wa),
        spec_piece_of(b, wb),
        spec_apart(wa, wb),
    ensures
        spec_apart(a, b),
{
}

/// What one tracked range keeps of itself when `[start, end)` is taken out.
proof fn lemma_split_retained(p: RgBufferAccessState, start: u64, end: u64)
    requires
        start <= end,
    ensures
        ({
            let kept = spec_split_retained(p, start, end);
            &&& forall|k: int|
                0 <= k < kept.len() ==> !spec_overlaps(#[trigger] kept[k], start, end)
                    && spec_piece_of(kept[k], p)
            &&& spec_ranges_disjoint(kept)
            &&& forall|x: int|
                spec_holds_byte(p, x) && !(start <= x < end) ==> exists|k: int|
                    0 <= k < kept.len() && #[trigger] spec_holds_byte(kept[k], x)
                        && spec_piece_of(kept[k], p)
            &&& p.start < p.end ==> forall|k: int| 0 <= k < kept.len() ==> (#[trigger] kept[k]).start < kept[k].end
        }),
{
    let kept = spec_split_retained(p, start, end);
    if spec_overlaps(p, start, end) {
        assert forall|x: int| spec_holds_byte(p, x) && !(start <= x < end) implies exists|k: int|
            0 <= k < kept.len() && #[trigger] spec_holds_byte(kept[k], x) && spec_piece_of(
                kept[k],
                p,
            ) by {
            if x < start {
                assert(spec_holds_byte(kept[0], x));
            } else {
                assert(spec_holds_byte(kept[kept.len() - 1], x));
            }
        }
    } else {
        assert forall|x: int| spec_holds_byte(p, x) && !(start <= x < end) implies exists|k: int|
            0 <= k < kept.len() && #[trigger] spec_holds_byte(kept[k], x) && spec_piece_of(
                kept[k],
                p,
            ) by {
            assert(spec_holds_byte(kept[0], x));
        }
    }
}

/// What every tracked range keeps when `[start, end)` is taken out: no kept piece touches the
/// taken bytes, each is a part of a range it came from, the pieces stay apart when the ranges
/// were, and every byte outside the taken bytes is still held by a part of its range.
proof fn lemma_scan_retained(prev: Seq<RgBufferAccessState>, start: u64, end: u64)
    requires
        start <= end,
    ensures
        ({
            let kept = spec_scan_retained(prev, start, end);
            &&& forall|k: int|
                0 <= k < kept.len() ==> !spec_overlaps(#[trigger] kept[k], start, end)
            &&& forall|k: int|
                0 <= k < kept.len() ==> spec_part_of_some(#[trigger] kept[k], prev)
            &&& spec_ranges_disjoint(prev) ==> spec_ranges_disjoint(kept)
            &&& forall|i: int, x: int|
                0 <= i < prev.len() && spec_holds_byte(prev[i], x) && !(start <= x < end)
                    ==> exists|k: int|
                    0 <= k < kept.len() && #[trigger] spec_holds_byte(kept[k], x)
                        && spec_piece_of(kept[k], prev[i])
            &&& spec_ranges_nonempty(prev) ==> spec_ranges_nonempty(kept)
        }),
    decreases prev.len(),
{
    if prev.len() == 0 {
        return ;
    }
    let init = prev.drop_last();
    let last = prev.last();
    lemma_scan_retained(init, start, end);
    lemma_split_retained(last, start, end);
    let a = spec_scan_retained(init, start, end);
    let b = spec_split_retained(last, start, end);
    let kept = spec_scan_retained(prev, start, end);
    assert(kept == a + b);
    if spec_ranges_nonempty(prev) {
        assert(spec_ranges_nonempty(init)) by {
            assert forall|i: int| 0 <= i < init.len() implies (#[trigger] init[i]).start < init[i].end by {
                assert(init[i] == prev[i]);
            }
        }
        assert(last.start < last.end);
        assert forall|k: int| 0 <= k < kept.len() implies (#[trigger] kept[k]).start < kept[k].end by {
            if k < a.len() {
                assert(kept[k] == a[k]);
            } else {
                assert(kept[k] == b[k - a.len()]);
            }
        }
    }
    assert forall|k: int| 0 <= k < kept.len() implies !spec_overlaps(
        #[trigger] kept[k],
        start,
        end,
    ) by {
        if k < a.len() {
            assert(kept[k] == a[k]);
        } else {
            assert(kept[k] == b[k - a.len()]);
        }
    }
    assert forall|k: int| 0 <= k < kept.len() implies spec_part_of_some(#[trigger] kept[k], prev) by {
        if k < a.len() {
            assert(kept[k] == a[k]);
            let i = choose|i: int| 0 <= i < init.len() && #[trigger] spec_piece_of(a[k], init[i]);
            assert(prev[i] == init[i]);
            assert(spec_piece_of(kept[k], prev[i]));
        } else {
            assert(kept[k] == b[k - a.len()]);
            assert(spec_piece_of(kept[k], prev[prev.len() - 1]));
        }
    }
    if spec_ranges_disjoint(prev) {
        assert(spec_ranges_disjoint(init)) by {
            assert forall|i: int, j: int| 0 <= i < j < init.len() implies spec_apart(
                #[trigger] init[i],
                #[trigger] init[j],
            ) by {
                assert(init[i] == prev[i] && init[j] == prev[j]);
            }
        }
        assert forall|i: int, j: int| 0 <= i < j < kept.len() implies spec_apart(
            #[trigger] kept[i],
            #[trigger] kept[j],
        ) by {
            if j < a.len() {
                assert(kept[i] == a[i] && kept[j] == a[j]);
            } else if i >= a.len() {
                assert(kept[i] == b[i - a.len()] && kept[j] == b[j - a.len()]);
            } else {
                assert(kept[i] == a[i] && kept[j] == b[j - a.len()]);
                let m = choose|m: int| 0 <= m < init.len() && #[trigger] spec_piece_of(a[i], init[m]);
                assert(init[m] == prev[m]);
                assert(spec_apart(prev[m], prev[prev.len() - 1]));
                lemma_pieces_apart(a[i], prev[m], b[j - a.len()], last);
            }
        }
    }
    assert forall|i: int, x: int|
        0 <= i < prev.len() && spec_holds_byte(prev[i], x) && !(start <= x < end) implies exists|
        k: int,
    |
        0 <= k < kept.len() && #[trigger] spec_holds_byte(kept[k], x) && spec_piece_of(
            kept[k],
            prev[i],
        ) by {
        if i < init.len() {
            assert(init[i] == prev[i]);
            let k = choose|k: int|
                0 <= k < a.len() && #[trigger] spec_holds_byte(a[k], x) && spec_piece_of(
                    a[k],
                    init[i],
                );
            assert(kept[k] == a[k]);
        } else {
            let k = choose|k: int|
                0 <= k < b.len() && #[trigger] spec_holds_byte(b[k], x) && spec_piece_of(
                    b[k],
                    last,
                );
            assert(kept[a.len() + k] == b[k]);
        }
    }
}

/// Range tracking under a buffer access (the state [`apply_access_queued`] leaves). When no two
/// tracked ranges of the buffer share a byte before the access, none do after it; the accessed
/// bytes end up tracked as one range, the last, with the access's write flag, queue, family and
/// pass; every other range left is a part of an earlier one with that range's state; every byte
/// outside the accessed range that an earlier range held is still held by a part of it; the
/// tracked bytes are the earlier ones joined with the accessed ones; when every range held a
/// byte before, every range left does; and a non-empty accessed range is the only one tracked
/// with exactly its bounds.
pub proof fn lemma_buffer_access_tracking(
    r: RgResourceView,
    target: RgUsageInfo,
    range: Option<RgBufferRange>,
    pass: usize,
    queue: RgQueueAssignment,
    queue_family: u32,
)
    requires
        !r.is_image,
        spec_access_allowed(r, range),
        spec_ranges_disjoint(r.buffer_accesses),
    ensures
        ({
            let prev = r.buffer_accesses;
            let after = spec_access_after(
                r,
                target,
                range,
                pass,
                queue,
                queue_family,
            ).buffer_accesses;
            let (start, end) = spec_range_bounds(r.buffer_size, range);
            let n = after.len() - 1;
            &&& after.len() >= 1
            &&& spec_ranges_disjoint(after)
            &&& after[n].start == start && after[n].end == end
            &&& forall|k: int| 0 <= k < n ==> spec_part_of_some(#[trigger] after[k], prev)
            &&& forall|i: int, x: int|
                0 <= i < prev.len() && spec_holds_byte(prev[i], x) && !(start <= x < end)
                    ==> exists|k: int|
                    0 <= k < n && #[trigger] spec_holds_byte(after[k], x) && spec_piece_of(
                        after[k],
                        prev[i],
                    )
            &&& after[n].is_write == target.is_write
            &&& after[n].queue == queue
            &&& after[n].queue_family == queue_family
            &&& after[n].last_pass == Some(pass)
            &&& forall|x: int| #[trigger] spec_tracks_byte(after, x) <==> (start <= x < end || spec_tracks_byte(prev, x))
            &&& spec_ranges_nonempty(prev) && start < end ==> spec_ranges_nonempty(after)
            &&& start < end ==> forall|k: int| 0 <= k < n ==> !(#[trigger] after[k].start == start && after[k].end == end)
        }),
{
    let prev = r.buffer_accesses;
    let (start, end) = spec_range_bounds(r.buffer_size, range);
    let after = spec_access_after(r, target, range, pass, queue, queue_family).buffer_accesses;
    let kept = spec_scan_retained(prev, start, end);
    lemma_scan_retained(prev, start, end);
    assert(after.drop_last() == kept);
    let n = after.len() - 1;
    assert forall|i: int, j: int| 0 <= i < j < after.len() implies spec_apart(
        #[trigger] after[i],
        #[trigger] after[j],
    ) by {
        assert(after[i] == kept[i]);
        if j < n {
            assert(after[j] == kept[j]);
        } else {
            assert(!spec_overlaps(kept[i], start, end));
        }
    }
    assert forall|k: int| 0 <= k < n implies spec_part_of_some(#[trigger] after[k], prev) by {
        assert(after[k] == kept[k]);
    }
    assert forall|i: int, x: int|
        0 <= i < prev.len() && spec_holds_byte(prev[i], x) && !(start <= x < end) implies exists|
        k: int,
    | 0 <= k < n && #[trigger] spec_holds_byte(after[k], x) && spec_piece_of(after[k], prev[i]) by {
        let k = choose|k: int|
            0 <= k < kept.len() && #[trigger] spec_holds_byte(kept[k], x) && spec_piece_of(
                kept[k],
                prev[i],
            );
        assert(after[k] == kept[k]);
    }
    assert forall|x: int| #[trigger] spec_tracks_byte(after, x) <==> (start <= x < end || spec_tracks_byte(prev, x)) by {
        if spec_tracks_byte(after, x) {
            let k = choose|k: int| 0 <= k < after.len() && #[trigger] spec_holds_byte(after[k], x);
            if k < n {
                assert(spec_part_of_some(after[k], prev));
                let i = choose|i: int| 0 <= i < prev.len() && #[trigger] spec_piece_of(after[k], prev[i]);
                assert(spec_holds_byte(prev[i], x));
            }
        }
        if start <= x < end {
            assert(spec_holds_byte(after[n], x));
        } else if spec_tracks_byte(prev, x) {
            let i = choose|i: int| 0 <= i < prev.len() && #[trigger] spec_holds_byte(prev[i], x);
            let k = choose|k: int|
                0 <= k < n && #[trigger] spec_holds_byte(after[k], x) && spec_piece_of(after[k], prev[i]);
            assert(spec_holds_byte(after[k], x));
        }
    }
    if spec_ranges_nonempty(prev) && start < end {
        assert forall|k: int| 0 <= k < after.len() implies (#[trigger] after[k]).start < after[k].end by {
            if k < n {
                assert(after[k] == kept[k]);
            }
        }
    }
}

/// Whether a buffer barrier covers a non-empty part of the bytes `[lo, hi)`.
pub open spec fn spec_barrier_within(b: RgBufferBarrier, lo: int, hi: int) -> bool {
    lo <= b.offset && b.offset + b.size <= hi && b.size > 0
}

/// Whether two buffer barriers cover no byte in common.
pub open spec fn spec_barriers_apart(a: RgBufferBarrier, b: RgBufferBarrier) -> bool {
    a.offset + a.size <= b.offset || b.offset + b.size <= a.offset
}

/// Whether `b` covers part of one of the tracked ranges `prev`.
pub open spec fn spec_barrier_from_some(b: RgBufferBarrier, prev: Seq<RgBufferAccessState>) -> bool {
    exists|i: int| 0 <= i < prev.len() && #[trigger] spec_barrier_within(b, prev[i].start as int, prev[i].end as int)
}

/// The barrier an access derives against one tracked range, if any, covers only bytes both
/// share.
proof fn lemma_split_barriers(
    p: RgBufferAccessState,
    start: u64,
    end: u64,
    target: RgUsageInfo,
    queue: RgQueueAssignment,
    queue_family: u32,
    buffer: u64,
)
    ensures
        ({
            let bars = spec_split_barriers(p, start, end, target, queue, queue_family, buffer);
            &&& bars.len() <= 1
            &&& forall|k: int| 0 <= k < bars.len() ==> {
                &&& spec_barrier_within(#[trigger] bars[k], start as int, end as int)
                &&& spec_barrier_within(bars[k], p.start as int, p.end as int)
                &&& bars[k].buffer == buffer
            }
        }),
{
}

/// The barriers an access derives against every tracked range cover only accessed bytes of
/// the buffer, each a part of one tracked range; and when the tracked ranges share no byte,
/// no two barriers do.
proof fn lemma_scan_barriers(
    prev: Seq<RgBufferAccessState>,
    start: u64,
    end: u64,
    target: RgUsageInfo,
    queue: RgQueueAssignment,
    queue_family: u32,
    buffer: u64,
)
    ensures
        ({
            let bars = spec_scan_barriers(prev, start, end, target, queue, queue_family, buffer);
            &&& forall|k: int| 0 <= k < bars.len() ==> {
                &&& spec_barrier_within(#[trigger] bars[k], start as int, end as int)
                &&& bars[k].buffer == buffer
                &&& spec_barrier_from_some(bars[k], prev)
            }
            &&& spec_ranges_disjoint(prev) ==> forall|i: int, j: int|
                0 <= i < j < bars.len() ==> spec_barriers_apart(#[trigger] bars[i], #[trigger] bars[j])
        }),
    decreases prev.len(),
{
    if prev.len() == 0 {
        return ;
    }
    let init = prev.drop_last();
    let last = prev.last();
    lemma_scan_barriers(init, start, end, target, queue, queue_family, buffer);
    lemma_split_barriers(last, start, end, target, queue, queue_family, buffer);
    let a = spec_scan_barriers(init, start, end, target, queue, queue_family, buffer);
    let b = spec_split_barriers(last, start, end, target, queue, queue_family, buffer);
    let bars = spec_scan_barriers(prev, start, end, target, queue, queue_family, buffer);
    assert(bars == a + b);
    assert forall|k: int| 0 <= k < bars.len() implies {
        &&& spec_barrier_within(#[trigger] bars[k], start as int, end as int)
        &&& bars[k].buffer == buffer
        &&& spec_barrier_from_some(bars[k], prev)
    } by {
        if k < a.len() {
            assert(bars[k] == a[k]);
            let i = choose|i: int| 0 <= i < init.len() && #[trigger] spec_barrier_within(
                a[k],
                init[i].start as int,
                init[i].end as int,
            );
            assert(prev[i] == init[i]);
            assert(spec_barrier_within(bars[k], prev[i].start as int, prev[i].end as int));
        } else {
            assert(bars[k] == b[k - a.len()]);
            assert(prev[prev.len() - 1] == last);
            assert(spec_barrier_within(bars[k], prev[prev.len() - 1].start as int, prev[prev.len() - 1].end as int));
        }
    }
    if spec_ranges_disjoint(prev) {
        assert(spec_ranges_disjoint(init)) by {
            assert forall|i: int, j: int| 0 <= i < j < init.len() implies spec_apart(
                #[trigger] init[i],
                #[trigger] init[j],
            ) by {
                assert(init[i] == prev[i] && init[j] == prev[j]);
            }
        }
        assert forall|i: int, j: int| 0 <= i < j < bars.len() implies spec_barriers_apart(
            #[trigger] bars[i],
            #[trigger] bars[j],
        ) by {
            if j < a.len() {
                assert(bars[i] == a[i] && bars[j] == a[j]);
            } else {
                assert(i < a.len());
                assert(bars[i] == a[i] && bars[j] == b[j - a.len()]);
                let m = choose|m: int| 0 <= m < init.len() && #[trigger] spec_barrier_within(
                    a[i],
                    init[m].start as int,
                    init[m].end as int,
                );
                assert(init[m] == prev[m]);
                assert(spec_apart(prev[m], prev[prev.len() - 1]));
            }
        }
    }
}

/// The buffer barriers of an access. Every barrier covers a non-empty part of the accessed
/// bytes of the accessed buffer, within a range tracked before the access; and when the tracked
/// ranges shared no byte, no two barriers cover the same byte.
pub proof fn lemma_buffer_barriers_in_range(
    r: RgResourceView,
    target: RgUsageInfo,
    range: Option<RgBufferRange>,
    queue: RgQueueAssignment,
    queue_family: u32,
)
    requires
        !r.is_image,
        spec_access_allowed(r, range),
    ensures
        ({
            let bars = spec_access_buffer_barriers(r, target, range, queue, queue_family);
            let (start, end) = spec_range_bounds(r.buffer_size, range);
            &&& forall|k: int| 0 <= k < bars.len() ==> {
                &&& spec_barrier_within(#[trigger] bars[k], start as int, end as int)
                &&& bars[k].buffer == r.buffer
                &&& spec_barrier_from_some(bars[k], r.buffer_accesses)
            }
            &&& spec_ranges_disjoint(r.buffer_accesses) ==> forall|i: int, j: int|
                0 <= i < j < bars.len() ==> spec_barriers_apart(#[trigger] bars[i], #[trigger] bars[j])
        }),
{
    let (start, end) = spec_range_bounds(r.buffer_size, range);
    lemma_scan_barriers(r.buffer_accesses, start, end, target, queue, queue_family, r.buffer);
}

/// Whether an acquire barrier and a release barrier are the two halves of one ownership
/// transfer: the same bytes of the same buffer, between the same two families.
pub open spec fn spec_transfer_halves(acquire: RgBufferBarrier, release: RgBufferBarrier) -> bool {
    &&& acquire.buffer == release.buffer
    &&& acquire.offset == release.offset
    &&& acquire.size == release.size
    &&& acquire.src_queue_family_index == release.src_queue_family_index
    &&& acquire.dst_queue_family_index == release.dst_queue_family_index
}

/// Whether a barrier moves ownership between families.
pub open spec fn spec_is_transfer(b: RgBufferBarrier) -> bool {
    b.src_queue_family_index != b.dst_queue_family_index
}

/// Whether one of `bars` acquires what `release` releases.
pub open spec fn spec_acquired(bars: Seq<RgBufferBarrier>, release: RgBufferBarrier) -> bool {
    exists|k: int| 0 <= k < bars.len() && #[trigger] spec_transfer_halves(bars[k], release)
}

/// Whether a release is the release half of `acquire`'s transfer.
pub open spec fn spec_release_half(rel: RgQueueRelease, acquire: RgBufferBarrier) -> bool {
    match rel.barrier {
        RgQueueReleaseBarrier::Buffer(x) => spec_transfer_halves(acquire, x),
        _ => false,
    }
}

/// Whether one of `rels` releases what `acquire` acquires.
pub open spec fn spec_released(rels: Seq<RgQueueRelease>, acquire: RgBufferBarrier) -> bool {
    exists|j: int| 0 <= j < rels.len() && #[trigger] spec_release_half(rels[j], acquire)
}

/// Against one tracked range, an access releases ownership exactly when it acquires it, both
/// halves over the same bytes between the same families.
proof fn lemma_split_transfers(
    p: RgBufferAccessState,
    start: u64,
    end: u64,
    target: RgUsageInfo,
    queue: RgQueueAssignment,
    queue_family: u32,
    buffer: u64,
)
    ensures
        ({
            let bars = spec_split_barriers(p, start, end, target, queue, queue_family, buffer);
            let rels = spec_split_releases(p, start, end, queue, queue_family, buffer);
            &&& forall|j: int| 0 <= j < rels.len() ==> ((#[trigger] rels[j]).barrier matches RgQueueReleaseBarrier::Buffer(x)
                ==> spec_acquired(bars, x))
            &&& forall|k: int| 0 <= k < bars.len() && spec_is_transfer(#[trigger] bars[k]) ==> spec_released(rels, bars[k])
        }),
{
    let bars = spec_split_barriers(p, start, end, target, queue, queue_family, buffer);
    let rels = spec_split_releases(p, start, end, queue, queue_family, buffer);
    if rels.len() > 0 {
        if let RgQueueReleaseBarrier::Buffer(x) = rels[0].barrier {
            assert(spec_transfer_halves(bars[0], x));
        }
    }
    if bars.len() > 0 && spec_is_transfer(bars[0]) {
        assert(spec_release_half(rels[0], bars[0]));
    }
}

/// Over every tracked range, each ownership release an access derives is matched by an
/// acquire of the same bytes between the same families, and each acquire by a release.
proof fn lemma_scan_transfers(
    prev: Seq<RgBufferAccessState>,
    start: u64,
    end: u64,
    target: RgUsageInfo,
    queue: RgQueueAssignment,
    queue_family: u32,
    buffer: u64,
)
    ensures
        ({
            let bars = spec_scan_barriers(prev, start, end, target, queue, queue_family, buffer);
            let rels = spec_scan_releases(prev, start, end, queue, queue_family, buffer);
            &&& forall|j: int| 0 <= j < rels.len() ==> ((#[trigger] rels[j]).barrier matches RgQueueReleaseBarrier::Buffer(x)
                ==> spec_acquired(bars, x))
            &&& forall|k: int| 0 <= k < bars.len() && spec_is_transfer(#[trigger] bars[k]) ==> spec_released(rels, bars[k])
        }),
    decreases prev.len(),
{
    if prev.len() == 0 {
        return ;
    }
    let init = prev.drop_last();
    let last = prev.last();
    lemma_scan_transfers(init, start, end, target, queue, queue_family, buffer);
    lemma_split_transfers(last, start, end, target, queue, queue_family, buffer);
    let ba = spec_scan_barriers(init, start, end, target, queue, queue_family, buffer);
    let bb = spec_split_barriers(last, start, end, target, queue, queue_family, buffer);
    let ra = spec_scan_releases(init, start, end, queue, queue_family, buffer);
    let rb = spec_split_releases(last, start, end, queue, queue_family, buffer);
    let bars = spec_scan_barriers(prev, start, end, target, queue, queue_family, buffer);
    let rels = spec_scan_releases(prev, start, end, queue, queue_family, buffer);
    assert(bars == ba + bb);
    assert(rels == ra + rb);
    assert forall|j: int| 0 <= j < rels.len() implies ((#[trigger] rels[j]).barrier matches RgQueueReleaseBarrier::Buffer(x)
        ==> spec_acquired(bars, x)) by {
        if let RgQueueReleaseBarrier::Buffer(x) = rels[j].barrier {
            if j < ra.len() {
                assert(rels[j] == ra[j]);
                let k = choose|k: int| 0 <= k < ba.len() && #[trigger] spec_transfer_halves(ba[k], x);
                assert(bars[k] == ba[k]);
            } else {
                assert(rels[j] == rb[j - ra.len()]);
                let k = choose|k: int| 0 <= k < bb.len() && #[trigger] spec_transfer_halves(bb[k], x);
                assert(bars[ba.len() + k] == bb[k]);
            }
        }
    }
    assert forall|k: int| 0 <= k < bars.len() && spec_is_transfer(#[trigger] bars[k]) implies spec_released(
        rels,
        bars[k],
    ) by {
        if k < ba.len() {
            assert(bars[k] == ba[k]);
            let j = choose|j: int| 0 <= j < ra.len() && #[trigger] spec_release_half(ra[j], ba[k]);
            assert(rels[j] == ra[j]);
        } else {
            assert(bars[k] == bb[k - ba.len()]);
            let j = choose|j: int| 0 <= j < rb.len() && #[trigger] spec_release_half(rb[j], bb[k - ba.len()]);
            assert(rels[ra.len() + j] == rb[j]);
        }
    }
}

/// Ownership transfers of a buffer access come in halves. Every buffer release the access
/// derives for the source queue is matched by an acquire before the access over the same bytes
/// between the same families; and every acquire that moves ownership between families is
/// matched by such a release.
pub proof fn lemma_buffer_transfers_pair(
    r: RgResourceView,
    target: RgUsageInfo,
    range: Option<RgBufferRange>,
    queue: RgQueueAssignment,
    queue_family: u32,
)
    requires
        !r.is_image,
    ensures
        ({
            let bars = spec_access_buffer_barriers(r, target, range, queue, queue_family);
            let rels = spec_access_releases(r, target, range, queue, queue_family);
            &&& forall|j: int| 0 <= j < rels.len() ==> ((#[trigger] rels[j]).barrier matches RgQueueReleaseBarrier::Buffer(x)
                ==> spec_acquired(bars, x))
            &&& forall|k: int| 0 <= k < bars.len() && spec_is_transfer(#[trigger] bars[k]) ==> spec_released(rels, bars[k])
        }),
{
    let (start, end) = spec_range_bounds(r.buffer_size, range);
    lemma_scan_transfers(r.buffer_accesses, start, end, target, queue, queue_family, r.buffer);
}

} // verus!

//! The bloom pyramid's render-graph passes: a downsample chain from the scene color, a tent
//! upsample chain back to the first level, an optional anamorphic streak ping-pong, and the
//! composite onto the scene color. Each pass is a compute dispatch of 8x8 workgroups; what it
//! binds and pushes is recorded beside the graph.
use vstd::prelude::*;
use crate::render_graph::{RgExtent2D, RgResource, RgUsage};
use crate::render_graph::graph::RenderGraph;
use super::graph_util::{add_compute_pass, spec_compute_pass};

verus! {

/// The most bloom levels the pyramid holds.
pub const MAX_BLOOM_MIPS: usize = 7;

/// One bloom level (or streak buffer): its graph image and extent.
#[derive(Clone, Copy, Debug, PartialEq, Eq, Structural)]
pub struct BloomMip {
    /// The level's image in the graph.
    pub res: RgResource,
    /// The level's extent.
    pub extent: RgExtent2D,
}

/// One anamorphic streak buffer: the transient key it was acquired under (also its pass name)
/// and the buffer itself.
#[derive(Clone, Copy, Debug, PartialEq, Eq)]
pub struct BloomStreak {
    /// The buffer's transient key and pass name.
    pub key: &'static str,
    /// The buffer.
    pub mip: BloomMip,
}

/// Which bloom stage a pass runs, selecting its push constants.
#[derive(Clone, Copy, Debug, PartialEq, Eq, Structural)]
pub enum BloomStage {
    /// Downsample into level `i` (the first with the Karis average).
    Downsample(usize),
    /// Tent upsample-add from level `j + 1` into level `j`.
    Upsample(usize),
    /// Streak ping-pong stage `s`.
    Streak(usize),
    /// The energy-conserving composite onto the scene color.
    Composite,
}

/// A bloom pass's dispatch: its stage and 8x8 workgroup counts.
#[derive(Clone, Copy, Debug, PartialEq, Eq, Structural)]
pub struct BloomDispatch {
    /// The stage.
    pub stage: BloomStage,
    /// Workgroups across.
    pub groups_x: u32,
    /// Workgroups down.
    pub groups_y: u32,
}

/// The 8-wide workgroups covering `n` pixels.
pub open spec fn spec_groups(n: u32) -> u32 {
    ((n as int + 7) / 8) as u32
}

fn groups(n: u32) -> (r: u32)
    ensures
        r == spec_groups(n),
{
    n / 8 + if n % 8 != 0 {
        1
    } else {
        0
    }
}

/// The name of the downsample into level `i`.
pub open spec fn spec_downsample_name(i: int) -> Seq<char> {
    if i == 0 {
        "bloom-downsample-0"@
    } else if i == 1 {
        "bloom-downsample-1"@
    } else if i == 2 {
        "bloom-downsample-2"@
    } else if i == 3 {
        "bloom-downsample-3"@
    } else if i == 4 {
        "bloom-downsample-4"@
    } else if i == 5 {
        "bloom-downsample-5"@
    } else {
        "bloom-downsample-6"@
    }
}

/// The name of the upsample into level `j`.
pub open spec fn spec_upsample_name(j: int) -> Seq<char> {
    if j == 0 {
        "bloom-upsample-0"@
    } else if j == 1 {
        "bloom-upsample-1"@
    } else if j == 2 {
        "bloom-upsample-2"@
    } else if j == 3 {
        "bloom-upsample-3"@
    } else if j == 4 {
        "bloom-upsample-4"@
    } else if j == 5 {
        "bloom-upsample-5"@
    } else {
        "bloom-upsample-6"@
    }
}

fn downsample_name(i: usize) -> (r: &'static str)
    ensures
        r@ == spec_downsample_name(i as int),
{
    if i == 0 {
        "bloom-downsample-0"
    } else if i == 1 {
        "bloom-downsample-1"
    } else if i == 2 {
        "bloom-downsample-2"
    } else if i == 3 {
        "bloom-downsample-3"
    } else if i == 4 {
        "bloom-downsample-4"
    } else if i == 5 {
        "bloom-downsample-5"
    } else {
        "bloom-downsample-6"
    }
}

fn upsample_name(j: usize) -> (r: &'static str)
    ensures
        r@ == spec_upsample_name(j as int),
{
    if j == 0 {
        "bloom-upsample-0"
    } else if j == 1 {
        "bloom-upsample-1"
    } else if j == 2 {
        "bloom-upsample-2"
    } else if j == 3 {
        "bloom-upsample-3"
    } else if j == 4 {
        "bloom-upsample-4"
    } else if j == 5 {
        "bloom-upsample-5"
    } else {
        "bloom-upsample-6"
    }
}

/// The number of bloom passes over `levels` levels and `streaks` streak buffers: a downsample
/// per level, an upsample per level but the last, a pass per streak buffer, and the composite.
pub open spec fn spec_bloom_pass_count(levels: int, streaks: int) -> int {
    2 * levels + streaks
}

/// Bloom pass `k`, in graph order: its name, its `(resource, usage)` accesses and its dispatch.
pub open spec fn spec_bloom_pass(
    color: RgResource,
    published: RgExtent2D,
    mips: Seq<BloomMip>,
    streak: Seq<BloomStreak>,
    k: int,
) -> (Seq<char>, Seq<(RgResource, RgUsage)>, BloomDispatch) {
    let l = mips.len() as int;
    let s = streak.len() as int;
    if k < l {
        let src = if k == 0 { color } else { mips[k - 1].res };
        (
            spec_downsample_name(k),
            seq![(src, RgUsage::SampledReadCompute), (mips[k].res, RgUsage::StorageImageRwCompute)],
            BloomDispatch {
                stage: BloomStage::Downsample(k as usize),
                groups_x: spec_groups(mips[k].extent.width),
                groups_y: spec_groups(mips[k].extent.height),
            },
        )
    } else if k < 2 * l - 1 {
        let j = 2 * l - 2 - k;
        (
            spec_upsample_name(j),
            seq![(mips[j + 1].res, RgUsage::SampledReadCompute), (mips[j].res, RgUsage::StorageImageRwCompute)],
            BloomDispatch {
                stage: BloomStage::Upsample(j as usize),
                groups_x: spec_groups(mips[j].extent.width),
                groups_y: spec_groups(mips[j].extent.height),
            },
        )
    } else if k < 2 * l - 1 + s {
        let i = k - (2 * l - 1);
        let src = if i == 0 { mips[0].res } else { streak[i - 1].mip.res };
        (
            streak[i].key@,
            seq![(src, RgUsage::SampledReadCompute), (streak[i].mip.res, RgUsage::StorageImageRwCompute)],
            BloomDispatch {
                stage: BloomStage::Streak(i as usize),
                groups_x: spec_groups(streak[i].mip.extent.width),
                groups_y: spec_groups(streak[i].mip.extent.height),
            },
        )
    } else {
        (
            "bloom-composite"@,
            if s > 0 {
                seq![
                    (mips[0].res, RgUsage::SampledReadCompute),
                    (color, RgUsage::StorageImageRwCompute),
                    (streak[s - 1].mip.res, RgUsage::SampledReadCompute),
                ]
            } else {
                seq![(mips[0].res, RgUsage::SampledReadCompute), (color, RgUsage::StorageImageRwCompute)]
            },
            BloomDispatch {
                stage: BloomStage::Composite,
                groups_x: spec_groups(published.width),
                groups_y: spec_groups(published.height),
            },
        )
    }
}

/// Whether `passes` continues `before` with exactly the first `count` bloom passes.
pub open spec fn spec_bloom_declared(
    before: Seq<crate::render_graph::RgPass>,
    passes: Seq<crate::render_graph::RgPass>,
    color: RgResource,
    published: RgExtent2D,
    mips: Seq<BloomMip>,
    streak: Seq<BloomStreak>,
    count: int,
) -> bool {
    &&& passes.len() == before.len() + count
    &&& forall|k: int| 0 <= k < before.len() ==> passes[k] == before[k]
    &&& forall|k: int|
        0 <= k < count ==> spec_compute_pass(
            #[trigger] passes[before.len() + k],
            spec_bloom_pass(color, published, mips, streak, k).0,
            spec_bloom_pass(color, published, mips, streak, k).1,
        )
}

/// Declares the bloom passes over the level chain `mips` (first level half the scene's
/// resolution) and the streak buffers `streak` onto the scene color `color` shown at
/// `published`: a downsample into each level, an upsample into each level but the last from the
/// coarsest down, a streak pass per buffer, then the composite, which also samples the last
/// streak buffer when there is one. Returns each pass's dispatch in graph order.
pub fn add_bloom_passes(
    graph: &mut RenderGraph,
    color: RgResource,
    published: RgExtent2D,
    mips: &[BloomMip],
    streak: &[BloomStreak],
) -> (r: Vec<BloomDispatch>)
    requires
        1 <= mips@.len() <= MAX_BLOOM_MIPS,
        2 * mips@.len() + streak@.len() <= usize::MAX,
    ensures
        spec_bloom_declared(old(graph).passes@, final(graph).passes@, color, published, mips@, streak@,
            spec_bloom_pass_count(mips@.len() as int, streak@.len() as int)),
        r@.len() == spec_bloom_pass_count(mips@.len() as int, streak@.len() as int),
        forall|k: int| 0 <= k < r@.len() ==> #[trigger] r@[k] == spec_bloom_pass(color, published, mips@, streak@, k).2,
        final(graph).resources@ == old(graph).resources@,
        final(graph).external_states@ == old(graph).external_states@,
        final(graph).external_buffer_states@ == old(graph).external_buffer_states@,
{
    let ghost before = graph.passes@;
    let ghost ms = mips@;
    let ghost ss = streak@;
    let levels = mips.len();
    let mut out: Vec<BloomDispatch> = Vec::new();
    let mut i: usize = 0;
    while i < levels
        invariant
            levels == ms.len(),
            1 <= levels <= MAX_BLOOM_MIPS,
            ms == mips@,
            ss == streak@,
            i <= levels,
            spec_bloom_declared(before, graph.passes@, color, published, ms, ss, i as int),
            out@.len() == i,
            forall|k: int| 0 <= k < i ==> #[trigger] out@[k] == spec_bloom_pass(color, published, ms, ss, k).2,
            graph.resources@ == old(graph).resources@,
            graph.external_states@ == old(graph).external_states@,
            graph.external_buffer_states@ == old(graph).external_buffer_states@,
        decreases levels - i,
    {
        let src = if i == 0 {
            color
        } else {
            mips[i - 1].res
        };
        let accesses = vec![(src, RgUsage::SampledReadCompute), (mips[i].res, RgUsage::StorageImageRwCompute)];
        let ghost e = spec_bloom_pass(color, published, ms, ss, i as int);
        proof {
            assert(accesses@ =~= e.1);
        }
        let ghost prev = graph.passes@;
        add_compute_pass(graph, downsample_name(i), &accesses);
        out.push(
            BloomDispatch {
                stage: BloomStage::Downsample(i),
                groups_x: groups(mips[i].extent.width),
                groups_y: groups(mips[i].extent.height),
            },
        );
        proof {
            assert forall|k: int| 0 <= k < i + 1 implies spec_compute_pass(
                #[trigger] graph.passes@[before.len() + k],
                spec_bloom_pass(color, published, ms, ss, k).0,
                spec_bloom_pass(color, published, ms, ss, k).1,
            ) by {
                if k < i {
                    assert(graph.passes@[before.len() + k] == prev[before.len() + k]);
                }
            }
        }
        i = i + 1;
    }
    let mut j: usize = levels - 1;
    while j > 0
        invariant
            levels == ms.len(),
            1 <= levels <= MAX_BLOOM_MIPS,
            ms == mips@,
            ss == streak@,
            j < levels,
            spec_bloom_declared(before, graph.passes@, color, published, ms, ss, 2 * levels - 1 - j),
            out@.len() == 2 * levels - 1 - j,
            forall|k: int| 0 <= k < 2 * levels - 1 - j ==> #[trigger] out@[k] == spec_bloom_pass(color, published, ms, ss, k).2,
            graph.resources@ == old(graph).resources@,
            graph.external_states@ == old(graph).external_states@,
            graph.external_buffer_states@ == old(graph).external_buffer_states@,
        decreases j,
    {
        let t = j - 1;
        let accesses = vec![(mips[t + 1].res, RgUsage::SampledReadCompute), (mips[t].res, RgUsage::StorageImageRwCompute)];
        let ghost n = 2 * levels - 1 - j;
        let ghost e = spec_bloom_pass(color, published, ms, ss, n);
        proof {
            assert(2 * levels - 2 - n == t);
            assert(accesses@ =~= e.1);
        }
        let ghost prev = graph.passes@;
        add_compute_pass(graph, upsample_name(t), &accesses);
        out.push(
            BloomDispatch {
                stage: BloomStage::Upsample(t),
                groups_x: groups(mips[t].extent.width),
                groups_y: groups(mips[t].extent.height),
            },
        );
        proof {
            assert forall|k: int| 0 <= k < n + 1 implies spec_compute_pass(
                #[trigger] graph.passes@[before.len() + k],
                spec_bloom_pass(color, published, ms, ss, k).0,
                spec_bloom_pass(color, published, ms, ss, k).1,
            ) by {
                if k < n {
                    assert(graph.passes@[before.len() + k] == prev[before.len() + k]);
                }
            }
        }
        j = t;
    }
    let mut s: usize = 0;
    while s < streak.len()
        invariant
            levels == ms.len(),
            1 <= levels <= MAX_BLOOM_MIPS,
            ms == mips@,
            ss == streak@,
            2 * levels + ss.len() <= usize::MAX,
            s <= ss.len(),
            spec_bloom_declared(before, graph.passes@, color, published, ms, ss, 2 * levels - 1 + s),
            out@.len() == 2 * levels - 1 + s,
            forall|k: int| 0 <= k < 2 * levels - 1 + s ==> #[trigger] out@[k] == spec_bloom_pass(color, published, ms, ss, k).2,
            graph.resources@ == old(graph).resources@,
            graph.external_states@ == old(graph).external_states@,
            graph.external_buffer_states@ == old(graph).external_buffer_states@,
        decreases ss.len() - s,
    {
        let src = if s == 0 {
            mips[0].res
        } else {
            streak[s - 1].mip.res
        };
        let buffer = streak[s];
        let accesses = vec![(src, RgUsage::SampledReadCompute), (buffer.mip.res, RgUsage::StorageImageRwCompute)];
        let ghost n = 2 * levels - 1 + s;
        let ghost e = spec_bloom_pass(color, published, ms, ss, n);
        proof {
            assert(accesses@ =~= e.1);
        }
        let ghost prev = graph.passes@;
        add_compute_pass(graph, buffer.key, &accesses);
        out.push(
            BloomDispatch {
                stage: BloomStage::Streak(s),
                groups_x: groups(buffer.mip.extent.width),
                groups_y: groups(buffer.mip.extent.height),
            },
        );
        proof {
            assert forall|k: int| 0 <= k < n + 1 implies spec_compute_pass(
                #[trigger] graph.passes@[before.len() + k],
                spec_bloom_pass(color, published, ms, ss, k).0,
                spec_bloom_pass(color, published, ms, ss, k).1,
            ) by {
                if k < n {
                    assert(graph.passes@[before.len() + k] == prev[before.len() + k]);
                }
            }
        }
        s = s + 1;
    }
    let mut accesses = vec![(mips[0].res, RgUsage::SampledReadCompute), (color, RgUsage::StorageImageRwCompute)];
    if streak.len() > 0 {
        accesses.push((streak[streak.len() - 1].mip.res, RgUsage::SampledReadCompute));
    }
    let ghost n = 2 * levels - 1 + ss.len();
    let ghost e = spec_bloom_pass(color, published, ms, ss, n);
    proof {
        assert(accesses@ =~= e.1);
    }
    let ghost prev = graph.passes@;
    add_compute_pass(graph, "bloom-composite", &accesses);
    out.push(
        BloomDispatch {
            stage: BloomStage::Composite,
            groups_x: groups(published.width),
            groups_y: groups(published.height),
        },
    );
    proof {
        assert forall|k: int| 0 <= k < n + 1 implies spec_compute_pass(
            #[trigger] graph.passes@[before.len() + k],
            spec_bloom_pass(color, published, ms, ss, k).0,
            spec_bloom_pass(color, published, ms, ss, k).1,
        ) by {
            if k < n {
                assert(graph.passes@[before.len() + k] == prev[before.len() + k]);
            }
        }
    }
    out
}


/// The bloom dispatches' workgroups are the fewest 8-wide groups that reach every pixel: they
/// hold at least `n` pixels, and one group fewer would hold fewer than `n`.
pub proof fn lemma_bloom_groups_are_the_fewest(n: u32)
    ensures
        spec_groups(n) * 8 >= n,
        spec_groups(n) == 0 || (spec_groups(n) - 1) * 8 < n,
{
}

} // verus!

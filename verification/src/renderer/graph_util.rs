//! The attachment bindings the renderer's graphics passes declare.
use vstd::prelude::*;
use crate::render_graph::{RgAccess, RgAttachment, RgPass, RgPassKind, RgQueuePreference, RgResource, RgUsage};
use crate::render_graph::graph::RenderGraph;
use crate::vk_values::{
    ATTACHMENT_LOAD_OP_CLEAR, ATTACHMENT_LOAD_OP_LOAD, ATTACHMENT_STORE_OP_DONT_CARE,
    ATTACHMENT_STORE_OP_STORE,
};

verus! {

/// The bits of the `f32` value `1.0`: the far plane a depth clear resets to.
pub const DEPTH_FAR_BITS: u32 = 0x3f80_0000;

/// An attachment of `resource` with the given load and store operations, a zero clear value and
/// no resolve target.
pub open spec fn spec_plain_attachment(resource: RgResource, load_op: i32, store_op: i32) -> RgAttachment {
    RgAttachment { resource, load_op, store_op, clear_value: [0u32, 0u32, 0u32, 0u32], resolve: None }
}

/// A `CLEAR`-then-`STORE` depth attachment that clears to the far plane (depth `1.0`, stencil
/// `0`).
pub fn depth_clear_store(resource: RgResource) -> (r: RgAttachment)
    ensures
        r == (RgAttachment {
            resource,
            load_op: ATTACHMENT_LOAD_OP_CLEAR,
            store_op: ATTACHMENT_STORE_OP_STORE,
            clear_value: [DEPTH_FAR_BITS, 0u32, 0u32, 0u32],
            resolve: None,
        }),
{
    RgAttachment {
        resource,
        load_op: ATTACHMENT_LOAD_OP_CLEAR,
        store_op: ATTACHMENT_STORE_OP_STORE,
        clear_value: [DEPTH_FAR_BITS, 0u32, 0u32, 0u32],
        resolve: None,
    }
}

/// A `LOAD`-then-`STORE` color attachment: draw over what the target already holds.
pub fn color_load_store(resource: RgResource) -> (r: RgAttachment)
    ensures
        r == spec_plain_attachment(resource, ATTACHMENT_LOAD_OP_LOAD, ATTACHMENT_STORE_OP_STORE),
{
    RgAttachment {
        resource,
        load_op: ATTACHMENT_LOAD_OP_LOAD,
        store_op: ATTACHMENT_STORE_OP_STORE,
        clear_value: [0u32, 0u32, 0u32, 0u32],
        resolve: None,
    }
}

/// A `LOAD`-then-`STORE` depth attachment: keep depth-testing and writing over the scene's
/// laid-down depth.
pub fn depth_load_store(resource: RgResource) -> (r: RgAttachment)
    ensures
        r == spec_plain_attachment(resource, ATTACHMENT_LOAD_OP_LOAD, ATTACHMENT_STORE_OP_STORE),
{
    RgAttachment {
        resource,
        load_op: ATTACHMENT_LOAD_OP_LOAD,
        store_op: ATTACHMENT_STORE_OP_STORE,
        clear_value: [0u32, 0u32, 0u32, 0u32],
        resolve: None,
    }
}

/// A `LOAD`-then-`DONT_CARE` depth attachment: load the persisted scene depth so an overlay
/// depth-tests against it, but never write it back.
pub fn depth_load_readonly(resource: RgResource) -> (r: RgAttachment)
    ensures
        r == spec_plain_attachment(resource, ATTACHMENT_LOAD_OP_LOAD, ATTACHMENT_STORE_OP_DONT_CARE),
{
    RgAttachment {
        resource,
        load_op: ATTACHMENT_LOAD_OP_LOAD,
        store_op: ATTACHMENT_STORE_OP_DONT_CARE,
        clear_value: [0u32, 0u32, 0u32, 0u32],
        resolve: None,
    }
}

/// The workgroups of `per` invocations each that cover `n`.
pub open spec fn spec_cover(n: u32, per: u32) -> u32 {
    ((n as int + per - 1) / per as int) as u32
}

/// The workgroups of `per` invocations each that cover `n`, rounding up.
pub fn cover(n: u32, per: u32) -> (r: u32)
    requires
        per > 0,
    ensures
        r == spec_cover(n, per),
{
    let q = n / per;
    let rem = n % per;
    proof {
        assert(q * per + rem == n && 0 <= rem < per) by (nonlinear_arith)
            requires
                per > 0,
                q == n / per,
                rem == n % per,
        ;
        let ni = n as int;
        let pi = per as int;
        if rem == 0 {
            assert((ni + pi - 1) / pi == q as int) by (nonlinear_arith)
                requires
                    q * pi == ni,
                    pi > 0,
                    q >= 0,
            {
                assert(ni + pi - 1 == q * pi + (pi - 1));
            }
        } else {
            assert((ni + pi - 1) / pi == q as int + 1) by (nonlinear_arith)
                requires
                    q * pi + rem == ni,
                    0 < rem < pi,
                    pi > 0,
                    q >= 0,
            {
                assert(ni + pi - 1 == (q + 1) * pi + (rem - 1));
            }
        }
        if rem != 0 {
            assert(q < u32::MAX) by (nonlinear_arith)
                requires
                    q * per + rem == n,
                    rem > 0,
                    per > 0,
                    n <= u32::MAX,
            ;
        }
    }
    if rem != 0 {
        q + 1
    } else {
        q
    }
}

/// Whether `p` is a compute pass named `name` preferring `queue`, with no attachments, whose
/// accesses are `accesses` in order, each of the whole resource.
pub open spec fn spec_compute_pass_on(
    p: RgPass,
    name: Seq<char>,
    queue: RgQueuePreference,
    accesses: Seq<(RgResource, RgUsage)>,
) -> bool {
    &&& p.name@ == name
    &&& p.kind == RgPassKind::Compute
    &&& p.queue == queue
    &&& p.accesses@.len() == accesses.len()
    &&& forall|k: int|
        0 <= k < accesses.len() ==> #[trigger] p.accesses@[k] == (RgAccess {
            resource: accesses[k].0,
            usage: accesses[k].1,
            buffer_range: None,
        })
    &&& p.colors@.len() == 0
    &&& p.depth is None
}

/// Whether `p` is a compute pass on the graphics queue named `name`, with no attachments, whose
/// accesses are `accesses` in order, each of the whole resource.
pub open spec fn spec_compute_pass(p: RgPass, name: Seq<char>, accesses: Seq<(RgResource, RgUsage)>) -> bool {
    spec_compute_pass_on(p, name, RgQueuePreference::Graphics, accesses)
}

/// Declares a compute pass named `name`, preferring `queue`, with the `(resource, usage)`
/// accesses in order; the dispatch it records lives beside the graph.
pub fn add_compute_pass_on(
    graph: &mut RenderGraph,
    name: &'static str,
    queue: RgQueuePreference,
    accesses: &[(RgResource, RgUsage)],
)
    ensures
        final(graph).passes@.len() == old(graph).passes@.len() + 1,
        forall|k: int| 0 <= k < old(graph).passes@.len() ==> #[trigger] final(graph).passes@[k] == old(graph).passes@[k],
        spec_compute_pass_on(final(graph).passes@[old(graph).passes@.len() as int], name@, queue, accesses@),
        final(graph).resources@ == old(graph).resources@,
        final(graph).external_states@ == old(graph).external_states@,
        final(graph).external_buffer_states@ == old(graph).external_buffer_states@,
{
    let mut pass = RgPass::compute(name).queue(queue);
    let mut i: usize = 0;
    while i < accesses.len()
        invariant
            i <= accesses@.len(),
            pass.name == name,
            pass.kind == RgPassKind::Compute,
            pass.queue == queue,
            pass.accesses@.len() == i,
            forall|k: int|
                0 <= k < i ==> #[trigger] pass.accesses@[k] == (RgAccess {
                    resource: accesses@[k].0,
                    usage: accesses@[k].1,
                    buffer_range: None,
                }),
            pass.colors@.len() == 0,
            pass.depth is None,
        decreases accesses.len() - i,
    {
        let (resource, usage) = accesses[i];
        pass = pass.access(resource, usage);
        i = i + 1;
    }
    graph.add_pass(pass);
}

/// Declares a compute pass on the graphics queue named `name` with the `(resource, usage)`
/// accesses in order.
pub fn add_compute_pass(graph: &mut RenderGraph, name: &'static str, accesses: &[(RgResource, RgUsage)])
    ensures
        final(graph).passes@.len() == old(graph).passes@.len() + 1,
        forall|k: int| 0 <= k < old(graph).passes@.len() ==> #[trigger] final(graph).passes@[k] == old(graph).passes@[k],
        spec_compute_pass(final(graph).passes@[old(graph).passes@.len() as int], name@, accesses@),
        final(graph).resources@ == old(graph).resources@,
        final(graph).external_states@ == old(graph).external_states@,
        final(graph).external_buffer_states@ == old(graph).external_buffer_states@,
{
    add_compute_pass_on(graph, name, RgQueuePreference::Graphics, accesses);
}


/// The workgroups `cover` computes are the fewest that reach `n`: together they hold at least
/// `n` invocations, and one group fewer would hold fewer than `n`.
pub proof fn lemma_cover_is_the_fewest_groups(n: u32, per: u32)
    requires
        per > 0,
    ensures
        spec_cover(n, per) * per >= n,
        spec_cover(n, per) == 0 || (spec_cover(n, per) - 1) * per < n,
{
    let ni = n as int;
    let pi = per as int;
    let c = (ni + pi - 1) / pi;
    assert(c * pi <= ni + pi - 1 && ni + pi - 1 < c * pi + pi && c >= 0) by (nonlinear_arith)
        requires
            pi > 0,
            ni >= 0,
            c == (ni + pi - 1) / pi,
    ;
    assert(c <= ni) by (nonlinear_arith)
        requires
            c * pi <= ni + pi - 1,
            pi >= 1,
            c >= 0,
            ni >= 0,
    ;
    assert(c * pi >= ni);
    assert(c == 0 || (c - 1) * pi < ni) by (nonlinear_arith)
        requires
            c * pi <= ni + pi - 1,
    ;
}

} // verus!

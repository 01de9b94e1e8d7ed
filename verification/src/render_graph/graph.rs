//! The [`RenderGraph`] itself: the resource table, pass registration, and queue resolution.
use vstd::prelude::*;
use crate::vk_values::{ASPECT_COLOR, LAYOUT_SHADER_READ_ONLY_OPTIMAL, WHOLE_SIZE};
use super::{
    RgAccess, RgAttachment, RgBufferAccessState, RgBufferLifetime, RgBufferRange,
    RgBufferResource, RgExternalBufferState, RgExternalState, RgPass, RgQueueAssignment,
    RgQueueFamilies, RgResource, RgResourceState, RgResourceView, copy_buffer_accesses,
    spec_preferred_queue,
};
use super::barriers::{
    buffer_range_bounds, buffer_state_covers, seed_image_state, spans_cover, spec_access_spans,
    spec_declared_access_ok, spec_owner_consistent, spec_range_bounds, spec_range_fits,
    spec_spans_cover,
};

verus! {

/// A frame's render graph: imported resources plus the passes over them. Rebuilt every frame
/// (cheap) and compiled into a submission plan.
pub struct RenderGraph {
    /// The resource table: one tracked state per image or buffer.
    pub resources: Vec<RgResourceState>,
    /// The declared passes, in order.
    pub passes: Vec<RgPass>,
    /// Cross-frame image slots.
    pub external_states: Vec<RgExternalState>,
    /// Cross-frame buffer slots.
    pub external_buffer_states: Vec<RgExternalBufferState>,
}

/// The views of a resource table.
pub open spec fn spec_table(resources: Seq<RgResourceState>) -> Seq<RgResourceView> {
    resources.map_values(|r: RgResourceState| r@)
}

/// An attachment's image and resolve target both name images of the table.
pub open spec fn spec_attachment_wf(table: Seq<RgResourceView>, att: RgAttachment) -> bool {
    &&& att.resource.index < table.len()
    &&& table[att.resource.index as int].is_image
    &&& (att.resolve matches Some(res) ==> res.index < table.len() && table[res.index as int].is_image)
}

/// A declared access names a resource of the table, suits it (see
/// [`spec_declared_access_ok`]), declares a byte range only for a buffer, and that range fits.
pub open spec fn spec_access_wf(table: Seq<RgResourceView>, access: RgAccess) -> bool {
    &&& access.resource.index < table.len()
    &&& spec_declared_access_ok(table[access.resource.index as int], access.usage)
    &&& (table[access.resource.index as int].is_image ==> access.buffer_range is None)
    &&& (!table[access.resource.index as int].is_image ==> spec_range_fits(
        table[access.resource.index as int].buffer_size,
        access.buffer_range,
    ))
}

/// Every access and attachment of a pass is well formed against the table.
pub open spec fn spec_pass_wf(table: Seq<RgResourceView>, pass: RgPass) -> bool {
    &&& forall|k: int| 0 <= k < pass.accesses@.len() ==> spec_access_wf(table, #[trigger] pass.accesses@[k])
    &&& forall|k: int| 0 <= k < pass.colors@.len() ==> spec_attachment_wf(table, #[trigger] pass.colors@[k])
    &&& (pass.depth matches Some(d) ==> spec_attachment_wf(table, d))
}

/// A graph the compiler accepts: every pass well formed, every image's queue identity backed by
/// its owning family, every external slot index in range, and the resource table addressable
/// by a `u32` handle.
pub open spec fn spec_graph_wf(g: RenderGraph) -> bool {
    let table = spec_table(g.resources@);
    &&& g.resources@.len() <= u32::MAX
    &&& forall|p: int| 0 <= p < g.passes@.len() ==> spec_pass_wf(table, #[trigger] g.passes@[p])
    &&& forall|i: int| 0 <= i < table.len() ==> (#[trigger] table[i]).is_image ==> spec_owner_consistent(table[i])
    &&& forall|i: int| 0 <= i < table.len() ==> ((#[trigger] table[i]).external_state matches Some(s) ==> s < g.external_states@.len())
    &&& forall|i: int| 0 <= i < table.len() ==> ((#[trigger] table[i]).external_buffer_state matches Some(s) ==> s < g.external_buffer_states@.len())
}

/// Whether an attachment writes `resource` (itself or its resolve target).
pub open spec fn spec_attachment_touches(att: RgAttachment, resource: RgResource) -> bool {
    att.resource == resource || att.resolve == Some(resource)
}

/// Whether a pass declares any use of `resource`.
pub open spec fn spec_pass_touches(pass: RgPass, resource: RgResource) -> bool {
    ||| exists|k: int| 0 <= k < pass.accesses@.len() && (#[trigger] pass.accesses@[k]).resource == resource
    ||| exists|k: int| 0 <= k < pass.colors@.len() && spec_attachment_touches(#[trigger] pass.colors@[k], resource)
    ||| (pass.depth matches Some(d) && spec_attachment_touches(d, resource))
}

/// Whether a pass before `pass_index` declares any use of `resource`.
pub open spec fn spec_prior_pass_touches(passes: Seq<RgPass>, resource: RgResource, pass_index: int) -> bool {
    exists|q: int| 0 <= q < pass_index && spec_pass_touches(#[trigger] passes[q], resource)
}

/// The byte spans a list of accesses declares on `resource` of `buffer_size` bytes.
pub open spec fn spec_accesses_spans(accesses: Seq<RgAccess>, resource: RgResource, buffer_size: u64) -> Seq<(u64, u64)>
    decreases accesses.len(),
{
    if accesses.len() == 0 {
        Seq::empty()
    } else {
        let rest = spec_accesses_spans(accesses.drop_last(), resource, buffer_size);
        if accesses.last().resource == resource {
            rest.push(spec_range_bounds(buffer_size, accesses.last().buffer_range))
        } else {
            rest
        }
    }
}

/// The byte spans the passes before `pass_index` declare on `resource`.
pub open spec fn spec_prior_spans(passes: Seq<RgPass>, resource: RgResource, buffer_size: u64, pass_index: int) -> Seq<(u64, u64)>
    decreases pass_index,
{
    if pass_index <= 0 {
        Seq::empty()
    } else {
        spec_prior_spans(passes, resource, buffer_size, pass_index - 1) + spec_accesses_spans(
            passes[pass_index - 1].accesses@,
            resource,
            buffer_size,
        )
    }
}

/// Whether one declared access lets its pass leave the graphics queue: the resource is
/// graph-owned, or its contents at the pass are established by declared history — an image
/// imported with a recorded owner, untouched, or used by an earlier pass; a buffer range covered
/// by the imported state or by the ranges earlier passes declared.
pub open spec fn spec_access_keeps_async(g: RenderGraph, pass_index: int, access: RgAccess) -> bool {
    let r = g.resources@[access.resource.index as int]@;
    if r.is_image {
        (r.external_state is Some && r.queue is Some) || !r.touched || spec_prior_pass_touches(
            g.passes@,
            access.resource,
            pass_index,
        )
    } else {
        let (start, end) = spec_range_bounds(r.buffer_size, access.buffer_range);
        r.buffer_lifetime != RgBufferLifetime::Imported || (r.external_buffer_state is Some
            && spec_spans_cover(spec_access_spans(r.buffer_accesses), start, end))
            || spec_spans_cover(
            spec_prior_spans(g.passes@, access.resource, r.buffer_size, pass_index),
            start,
            end,
        )
    }
}

/// The queue a pass resolves to: its preference on the topology, except that an async-compute
/// pass stays on the graphics queue unless it declares accesses and every one of them keeps it
/// async (see [`spec_access_keeps_async`]).
pub open spec fn spec_resolve_queue(g: RenderGraph, pass: RgPass, pass_index: int, families: RgQueueFamilies) -> (RgQueueAssignment, u32) {
    let resolved = spec_preferred_queue(families, pass.kind, pass.queue);
    if resolved.0 == RgQueueAssignment::AsyncCompute && (pass.accesses@.len() == 0 || !(forall|k: int|
        0 <= k < pass.accesses@.len() ==> spec_access_keeps_async(g, pass_index, #[trigger] pass.accesses@[k])))
    {
        (RgQueueAssignment::Graphics, families.graphics)
    } else {
        resolved
    }
}

/// The state a newly imported image starts from: its entry layout and, from its external slot
/// when it has one, the last frame's scope and owner; otherwise the scope seeded from the entry
/// layout.
pub open spec fn spec_imported_image(
    image: u64,
    view: u64,
    aspect: u32,
    initial_layout: i32,
    external: Option<usize>,
    slots: Seq<RgExternalState>,
) -> RgResourceView {
    let base = RgResourceView {
        is_image: true,
        image,
        view,
        buffer: 0,
        buffer_size: WHOLE_SIZE,
        buffer_usage: 0,
        buffer_lifetime: RgBufferLifetime::Imported,
        buffer_accesses: Seq::empty(),
        aspect,
        layout: initial_layout,
        last_stage: crate::vk_values::STAGE_TOP_OF_PIPE,
        last_access: crate::vk_values::ACCESS_NONE,
        last_was_write: false,
        touched: false,
        external_state: external,
        external_buffer_state: None,
        queue_family: None,
        queue: None,
        last_pass: None,
    };
    match external {
        Some(slot) => {
            let s = slots[slot as int];
            RgResourceView {
                layout: s.layout,
                last_stage: s.stage,
                last_access: s.access,
                last_was_write: s.was_write,
                touched: s.touched,
                queue_family: s.queue_family,
                queue: s.queue,
                ..base
            }
        },
        None => if initial_layout == LAYOUT_SHADER_READ_ONLY_OPTIMAL {
            RgResourceView {
                last_stage: crate::vk_values::STAGE_FRAGMENT_SHADER,
                last_access: crate::vk_values::ACCESS_SHADER_SAMPLED_READ,
                ..base
            }
        } else {
            base
        },
    }
}

/// A new buffer's state from its declaration.
pub open spec fn spec_registered_buffer(resource: RgBufferResource) -> RgResourceView {
    RgResourceView {
        is_image: false,
        image: 0,
        view: 0,
        buffer: resource.buffer,
        buffer_size: resource.size,
        buffer_usage: resource.usage,
        buffer_lifetime: resource.lifetime,
        buffer_accesses: Seq::empty(),
        aspect: ASPECT_COLOR,
        layout: crate::vk_values::LAYOUT_UNDEFINED,
        last_stage: crate::vk_values::STAGE_TOP_OF_PIPE,
        last_access: crate::vk_values::ACCESS_NONE,
        last_was_write: false,
        touched: false,
        external_state: None,
        external_buffer_state: None,
        queue_family: None,
        queue: None,
        last_pass: None,
    }
}

/// Entry `i` of the table is a buffer registered with handle `buffer`.
pub open spec fn spec_is_buffer_entry(table: Seq<RgResourceView>, i: int, buffer: u64) -> bool {
    !table[i].is_image && table[i].buffer == buffer
}

/// `i` is the first buffer entry with handle `buffer`.
pub open spec fn spec_first_buffer_entry(table: Seq<RgResourceView>, i: int, buffer: u64) -> bool {
    &&& 0 <= i < table.len()
    &&& spec_is_buffer_entry(table, i, buffer)
    &&& forall|j: int| 0 <= j < i ==> !spec_is_buffer_entry(table, j, buffer)
}

/// No buffer entry has handle `buffer`.
pub open spec fn spec_no_buffer_entry(table: Seq<RgResourceView>, buffer: u64) -> bool {
    forall|j: int| 0 <= j < table.len() ==> !spec_is_buffer_entry(table, j, buffer)
}

/// A re-registration the graph accepts for an existing entry: graph-owned lifetimes agree (an
/// imported registration or an imported entry defers to the other), and known sizes agree.
pub open spec fn spec_reregistration_ok(entry: RgResourceView, resource: RgBufferResource) -> bool {
    &&& (entry.buffer_lifetime == RgBufferLifetime::Imported || entry.buffer_lifetime == resource.lifetime
        || resource.lifetime == RgBufferLifetime::Imported)
    &&& (entry.buffer_size == WHOLE_SIZE || resource.size == WHOLE_SIZE || entry.buffer_size == resource.size)
}

/// The entry after a re-registration: an imported lifetime upgrades to the declared one, an
/// unknown size becomes known, and the declared usages accumulate.
pub open spec fn spec_reregistered(entry: RgResourceView, resource: RgBufferResource) -> RgResourceView {
    RgResourceView {
        buffer_lifetime: if entry.buffer_lifetime == RgBufferLifetime::Imported {
            resource.lifetime
        } else {
            entry.buffer_lifetime
        },
        buffer_size: if entry.buffer_size == WHOLE_SIZE {
            resource.size
        } else {
            entry.buffer_size
        },
        buffer_usage: entry.buffer_usage | resource.usage,
        ..entry
    }
}

/// Registering the same buffer twice: after a first registration of a buffer the table did not
/// hold, the new entry is the buffer's only first entry, so a second registration of the same
/// declaration is accepted, returns that entry's handle, adds no entry, and leaves the entry as
/// the first registration made it (the declaration it reads back).
pub proof fn lemma_register_twice(
    before: Seq<RgResourceState>,
    after: Seq<RgResourceState>,
    resource: RgBufferResource,
)
    requires
        spec_no_buffer_entry(spec_table(before), resource.buffer),
        after.len() == before.len() + 1,
        forall|i: int| 0 <= i < before.len() ==> after[i] == before[i],
        after.last()@ == spec_registered_buffer(resource),
    ensures
        ({
            let n = before.len() as int;
            let table = spec_table(after);
            &&& !spec_no_buffer_entry(table, resource.buffer)
            &&& spec_first_buffer_entry(table, n, resource.buffer)
            &&& forall|i: int| spec_first_buffer_entry(table, i, resource.buffer) ==> i == n
            &&& spec_reregistration_ok(table[n], resource)
            &&& spec_reregistered(table[n], resource) == table[n]
            &&& table[n].buffer == resource.buffer && table[n].buffer_size == resource.size
            &&& table[n].buffer_usage == resource.usage && table[n].buffer_lifetime == resource.lifetime
        }),
{
    let n = before.len() as int;
    let table = spec_table(after);
    assert(table[n] == after[n]@);
    assert forall|j: int| 0 <= j < n implies !spec_is_buffer_entry(table, j, resource.buffer) by {
        assert(table[j] == after[j]@);
        assert(after[j] == before[j]);
        assert(spec_table(before)[j] == before[j]@);
        assert(!spec_is_buffer_entry(spec_table(before), j, resource.buffer));
    }
    let usage = resource.usage;
    assert(usage | usage == usage) by (bit_vector);
    assert forall|i: int| spec_first_buffer_entry(table, i, resource.buffer) implies i == n by {
        if i < n {
            assert(!spec_is_buffer_entry(table, i, resource.buffer));
        }
    }
    assert(table.len() == after.len());
    assert(spec_is_buffer_entry(table, n, resource.buffer));
    assert(spec_first_buffer_entry(table, n, resource.buffer));
    assert(spec_reregistered(table[n], resource) =~= table[n]);
}

impl RenderGraph {
    /// A fresh, empty graph.
    pub fn new() -> (g: Self)
        ensures
            g.resources@.len() == 0,
            g.passes@.len() == 0,
            g.external_states@.len() == 0,
            g.external_buffer_states@.len() == 0,
    {
        RenderGraph {
            resources: Vec::new(),
            passes: Vec::new(),
            external_states: Vec::new(),
            external_buffer_states: Vec::new(),
        }
    }

    /// Allocates a cross-frame image-state slot for [`RenderGraph::import_image`].
    pub fn alloc_external_state(&mut self, initial: RgExternalState) -> (slot: usize)
        requires
            old(self).external_states@.len() < usize::MAX,
        ensures
            slot == old(self).external_states@.len(),
            final(self).external_states@ == old(self).external_states@.push(initial),
            final(self).resources@ == old(self).resources@,
            final(self).passes@ == old(self).passes@,
            final(self).external_buffer_states@ == old(self).external_buffer_states@,
    {
        self.external_states.push(initial);
        self.external_states.len() - 1
    }

    /// The resolved image state currently in a slot.
    pub fn external_state(&self, slot: usize) -> (r: RgExternalState)
        requires
            slot < self.external_states@.len(),
        ensures
            r == self.external_states@[slot as int],
    {
        self.external_states[slot]
    }

    /// Allocates a cross-frame buffer-state slot for [`RenderGraph::import_buffer`].
    pub fn alloc_external_buffer_state(&mut self, initial: RgExternalBufferState) -> (slot: usize)
        requires
            old(self).external_buffer_states@.len() < usize::MAX,
        ensures
            slot == old(self).external_buffer_states@.len(),
            final(self).external_buffer_states@ == old(self).external_buffer_states@.push(initial),
            final(self).resources@ == old(self).resources@,
            final(self).passes@ == old(self).passes@,
            final(self).external_states@ == old(self).external_states@,
    {
        self.external_buffer_states.push(initial);
        self.external_buffer_states.len() - 1
    }

    /// The resolved byte-range state currently in a buffer slot.
    pub fn external_buffer_state(&self, slot: usize) -> (r: RgExternalBufferState)
        requires
            slot < self.external_buffer_states@.len(),
        ensures
            r.accesses@ == self.external_buffer_states@[slot as int].accesses@,
    {
        self.external_buffer_states[slot].copy()
    }

    /// Imports an external image (offscreen/swapchain target). When `external` is set, the
    /// slot's state seeds the entry layout, scope and owner, and receives the resolved state
    /// when the plan is recorded, so the image's layout carries across frames.
    pub fn import_image(
        &mut self,
        image: u64,
        view: u64,
        aspect: u32,
        initial_layout: i32,
        external: Option<usize>,
    ) -> (res: RgResource)
        requires
            old(self).resources@.len() < u32::MAX,
            external matches Some(slot) ==> slot < old(self).external_states@.len(),
        ensures
            res.index == old(self).resources@.len(),
            final(self).resources@.len() == old(self).resources@.len() + 1,
            forall|i: int| 0 <= i < old(self).resources@.len() ==> final(self).resources@[i] == old(self).resources@[i],
            final(self).resources@.last()@ == spec_imported_image(
                image,
                view,
                aspect,
                initial_layout,
                external,
                old(self).external_states@,
            ),
            final(self).passes@ == old(self).passes@,
            final(self).external_states@ == old(self).external_states@,
            final(self).external_buffer_states@ == old(self).external_buffer_states@,
    {
        let mut r = RgResourceState::default();
        r.is_image = true;
        r.image = image;
        r.view = view;
        r.aspect = aspect;
        r.layout = initial_layout;
        r.external_state = external;
        match external {
            Some(slot) => {
                let state = self.external_states[slot];
                r.layout = state.layout;
                r.last_stage = state.stage;
                r.last_access = state.access;
                r.last_was_write = state.was_write;
                r.touched = state.touched;
                r.queue_family = state.queue_family;
                r.queue = state.queue;
            },
            None => {
                seed_image_state(&mut r);
            },
        }
        assert(r@.buffer_accesses =~= Seq::<RgBufferAccessState>::empty());
        self.resources.push(r);
        RgResource { index: (self.resources.len() - 1) as u32 }
    }

    /// Imports an external 3D image. Tracked identically to a 2D color image for barrier
    /// purposes — the barrier transitions the whole image and dimensionality is irrelevant.
    pub fn import_image_3d(&mut self, image: u64, view: u64, initial_layout: i32, external: Option<usize>) -> (res: RgResource)
        requires
            old(self).resources@.len() < u32::MAX,
            external matches Some(slot) ==> slot < old(self).external_states@.len(),
        ensures
            res.index == old(self).resources@.len(),
            final(self).resources@.len() == old(self).resources@.len() + 1,
            forall|i: int| 0 <= i < old(self).resources@.len() ==> final(self).resources@[i] == old(self).resources@[i],
            final(self).resources@.last()@ == spec_imported_image(
                image,
                view,
                ASPECT_COLOR,
                initial_layout,
                external,
                old(self).external_states@,
            ),
            final(self).passes@ == old(self).passes@,
            final(self).external_states@ == old(self).external_states@,
            final(self).external_buffer_states@ == old(self).external_buffer_states@,
    {
        self.import_image(image, view, ASPECT_COLOR, initial_layout, external)
    }

    /// Registers an imported or graph-allocated buffer in the unified resource table. A buffer
    /// already in the table (by handle) is updated in place: an imported entry takes the
    /// declared lifetime, an unknown size becomes known, and usages accumulate.
    pub fn register_buffer(&mut self, resource: RgBufferResource) -> (res: RgResource)
        requires
            resource.size != 0,
            old(self).resources@.len() < u32::MAX,
            forall|i: int| spec_first_buffer_entry(spec_table(old(self).resources@), i, resource.buffer)
                ==> spec_reregistration_ok(old(self).resources@[i]@, resource),
        ensures
            final(self).passes@ == old(self).passes@,
            final(self).external_states@ == old(self).external_states@,
            final(self).external_buffer_states@ == old(self).external_buffer_states@,
            ({
                let table = spec_table(old(self).resources@);
                if spec_no_buffer_entry(table, resource.buffer) {
                    &&& res.index == old(self).resources@.len()
                    &&& final(self).resources@.len() == old(self).resources@.len() + 1
                    &&& forall|i: int| 0 <= i < old(self).resources@.len() ==> final(self).resources@[i] == old(self).resources@[i]
                    &&& final(self).resources@.last()@ == spec_registered_buffer(resource)
                } else {
                    &&& spec_first_buffer_entry(table, res.index as int, resource.buffer)
                    &&& final(self).resources@.len() == old(self).resources@.len()
                    &&& forall|i: int| 0 <= i < old(self).resources@.len() && i != res.index ==> final(self).resources@[i] == old(self).resources@[i]
                    &&& final(self).resources@[res.index as int]@ == spec_reregistered(table[res.index as int], resource)
                }
            }),
    {
        let ghost table = spec_table(self.resources@);
        let n = self.resources.len();
        let mut i: usize = 0;
        while i < n
            invariant
                i <= n,
                n == self.resources@.len(),
                n < u32::MAX,
                self.resources@ == old(self).resources@,
                self.passes@ == old(self).passes@,
                self.external_states@ == old(self).external_states@,
                self.external_buffer_states@ == old(self).external_buffer_states@,
                table == spec_table(self.resources@),
                forall|j: int| 0 <= j < i ==> !spec_is_buffer_entry(table, j, resource.buffer),
            decreases n - i,
        {
            if !self.resources[i].is_image && self.resources[i].buffer == resource.buffer {
                assert(spec_first_buffer_entry(table, i as int, resource.buffer));
                let mut state = self.resources[i].copy();
                if state.buffer_lifetime == RgBufferLifetime::Imported {
                    state.buffer_lifetime = resource.lifetime;
                }
                if state.buffer_size == WHOLE_SIZE {
                    state.buffer_size = resource.size;
                }
                state.buffer_usage = state.buffer_usage | resource.usage;
                self.resources.set(i, state);
                return RgResource { index: i as u32 };
            }
            i = i + 1;
        }
        let mut r = RgResourceState::default();
        r.buffer = resource.buffer;
        r.buffer_size = resource.size;
        r.buffer_usage = resource.usage;
        r.buffer_lifetime = resource.lifetime;
        assert(r@ == spec_registered_buffer(resource)) by {
            assert(r@.buffer_accesses =~= Seq::<RgBufferAccessState>::empty());
        }
        self.resources.push(r);
        RgResource { index: (self.resources.len() - 1) as u32 }
    }

    /// Imports an external buffer produced and/or consumed within the frame. With a slot, the
    /// slot's byte-range state seeds the buffer's tracked state.
    pub fn import_buffer(&mut self, buffer: u64, external: Option<usize>) -> (res: RgResource)
        requires
            old(self).resources@.len() < u32::MAX,
            external matches Some(slot) ==> slot < old(self).external_buffer_states@.len(),
        ensures
            final(self).passes@ == old(self).passes@,
            final(self).external_states@ == old(self).external_states@,
            final(self).external_buffer_states@ == old(self).external_buffer_states@,
            res.index < final(self).resources@.len(),
            !final(self).resources@[res.index as int].is_image,
            final(self).resources@[res.index as int].buffer == buffer,
            external matches Some(slot) ==> final(self).resources@[res.index as int].external_buffer_state == Some(slot)
                && final(self).resources@[res.index as int].buffer_accesses@ == old(self).external_buffer_states@[slot as int].accesses@,
            ({
                let table = spec_table(old(self).resources@);
                if spec_no_buffer_entry(table, buffer) {
                    &&& res.index == old(self).resources@.len()
                    &&& final(self).resources@.len() == old(self).resources@.len() + 1
                    &&& forall|i: int| 0 <= i < old(self).resources@.len() ==> final(self).resources@[i] == old(self).resources@[i]
                    &&& external is None ==> final(self).resources@.last()@ == spec_registered_buffer(
                        RgBufferResource { buffer, size: WHOLE_SIZE, usage: 0, lifetime: RgBufferLifetime::Imported },
                    )
                } else {
                    &&& spec_first_buffer_entry(table, res.index as int, buffer)
                    &&& final(self).resources@.len() == old(self).resources@.len()
                    &&& forall|i: int| 0 <= i < old(self).resources@.len() && i != res.index ==> final(self).resources@[i] == old(self).resources@[i]
                }
            }),
    {
        let resource = self.register_buffer(
            RgBufferResource { buffer, size: WHOLE_SIZE, usage: 0, lifetime: RgBufferLifetime::Imported },
        );
        if let Some(slot) = external {
            let index = resource.index as usize;
            let mut state = self.resources[index].copy();
            state.external_buffer_state = Some(slot);
            state.buffer_accesses = copy_buffer_accesses(&self.external_buffer_states[slot].accesses);
            self.resources.set(index, state);
        }
        resource
    }

    /// Appends a pass to the graph.
    pub fn add_pass(&mut self, pass: RgPass)
        ensures
            final(self).passes@ == old(self).passes@.push(pass),
            final(self).resources@ == old(self).resources@,
            final(self).external_states@ == old(self).external_states@,
            final(self).external_buffer_states@ == old(self).external_buffer_states@,
    {
        self.passes.push(pass);
    }

    /// The underlying image handle of a resource (0 for a buffer).
    pub fn image(&self, resource: RgResource) -> (r: u64)
        requires
            resource.index < self.resources@.len(),
        ensures
            r == self.resources@[resource.index as int].image,
    {
        self.resources[resource.index as usize].image
    }

    /// The underlying image-view handle of a resource (0 for a buffer).
    pub fn view(&self, resource: RgResource) -> (r: u64)
        requires
            resource.index < self.resources@.len(),
        ensures
            r == self.resources@[resource.index as int].view,
    {
        self.resources[resource.index as usize].view
    }

    /// The underlying buffer handle of a resource (0 for an image).
    pub fn buffer(&self, resource: RgResource) -> (r: u64)
        requires
            resource.index < self.resources@.len(),
        ensures
            r == self.resources@[resource.index as int].buffer,
    {
        self.resources[resource.index as usize].buffer
    }

    /// Exact declaration for a registered buffer resource, or `None` for an image.
    pub fn buffer_resource(&self, resource: RgResource) -> (r: Option<RgBufferResource>)
        requires
            resource.index < self.resources@.len(),
        ensures
            ({
                let s = self.resources@[resource.index as int];
                if s.is_image {
                    r is None
                } else {
                    r == Some(
                        RgBufferResource {
                            buffer: s.buffer,
                            size: s.buffer_size,
                            usage: s.buffer_usage,
                            lifetime: s.buffer_lifetime,
                        },
                    )
                }
            }),
    {
        let state = &self.resources[resource.index as usize];
        if state.is_image {
            None
        } else {
            Some(
                RgBufferResource {
                    buffer: state.buffer,
                    size: state.buffer_size,
                    usage: state.buffer_usage,
                    lifetime: state.buffer_lifetime,
                },
            )
        }
    }

    /// Whether a pass before `pass_index` declares any use of `resource`.
    pub fn prior_pass_touches(&self, resource: RgResource, pass_index: usize) -> (r: bool)
        requires
            pass_index <= self.passes@.len(),
        ensures
            r == spec_prior_pass_touches(self.passes@, resource, pass_index as int),
    {
        let mut q: usize = 0;
        while q < pass_index
            invariant
                q <= pass_index <= self.passes@.len(),
                forall|p: int| 0 <= p < q ==> !spec_pass_touches(#[trigger] self.passes@[p], resource),
            decreases pass_index - q,
        {
            let pass = &self.passes[q];
            let mut k: usize = 0;
            while k < pass.accesses.len()
                invariant
                    k <= pass.accesses@.len(),
                    q < pass_index <= self.passes@.len(),
                    *pass == self.passes@[q as int],
                    forall|j: int| 0 <= j < k ==> (#[trigger] pass.accesses@[j]).resource != resource,
                decreases pass.accesses.len() - k,
            {
                if pass.accesses[k].resource == resource {
                    assert(spec_pass_touches(self.passes@[q as int], resource));
                    return true;
                }
                k = k + 1;
            }
            let mut c: usize = 0;
            while c < pass.colors.len()
                invariant
                    c <= pass.colors@.len(),
                    q < pass_index <= self.passes@.len(),
                    *pass == self.passes@[q as int],
                    forall|j: int| 0 <= j < c ==> !spec_attachment_touches(#[trigger] pass.colors@[j], resource),
                decreases pass.colors.len() - c,
            {
                let att = pass.colors[c];
                let hits_resolve = match att.resolve {
                    Some(res) => res == resource,
                    None => false,
                };
                if att.resource == resource || hits_resolve {
                    assert(spec_attachment_touches(pass.colors@[c as int], resource));
                    assert(spec_pass_touches(self.passes@[q as int], resource));
                    return true;
                }
                c = c + 1;
            }
            if let Some(depth) = pass.depth {
                let hits_resolve = match depth.resolve {
                    Some(res) => res == resource,
                    None => false,
                };
                if depth.resource == resource || hits_resolve {
                    assert(spec_pass_touches(self.passes@[q as int], resource));
                    return true;
                }
            }
            q = q + 1;
        }
        false
    }

    /// Whether the ranges passes before `pass_index` declare on a buffer cover every byte of
    /// `range`.
    pub fn prior_pass_covers_buffer(&self, resource: RgResource, range: Option<RgBufferRange>, pass_index: usize) -> (r: bool)
        requires
            pass_index <= self.passes@.len(),
            resource.index < self.resources@.len(),
            spec_range_fits(self.resources@[resource.index as int].buffer_size, range),
            forall|q: int, k: int| 0 <= q < pass_index && 0 <= k < self.passes@[q].accesses@.len()
                && (#[trigger] self.passes@[q].accesses@[k]).resource == resource ==> spec_range_fits(
                    self.resources@[resource.index as int].buffer_size,
                    self.passes@[q].accesses@[k].buffer_range,
                ),
        ensures
            ({
                let size = self.resources@[resource.index as int].buffer_size;
                let (start, end) = spec_range_bounds(size, range);
                r == spec_spans_cover(spec_prior_spans(self.passes@, resource, size, pass_index as int), start, end)
            }),
    {
        let size = self.resources[resource.index as usize].buffer_size;
        let (start, end) = buffer_range_bounds(size, range);
        let mut spans: Vec<(u64, u64)> = Vec::new();
        let mut q: usize = 0;
        while q < pass_index
            invariant
                q <= pass_index <= self.passes@.len(),
                resource.index < self.resources@.len(),
                size == self.resources@[resource.index as int].buffer_size,
                spans@ == spec_prior_spans(self.passes@, resource, size, q as int),
                forall|q2: int, k: int| 0 <= q2 < pass_index && 0 <= k < self.passes@[q2].accesses@.len()
                    && (#[trigger] self.passes@[q2].accesses@[k]).resource == resource ==> spec_range_fits(
                        size,
                        self.passes@[q2].accesses@[k].buffer_range,
                    ),
            decreases pass_index - q,
        {
            let accesses = &self.passes[q].accesses;
            let ghost base = spans@;
            let mut k: usize = 0;
            while k < accesses.len()
                invariant
                    k <= accesses@.len(),
                    q < pass_index <= self.passes@.len(),
                    accesses@ == self.passes@[q as int].accesses@,
                    spans@ == base + spec_accesses_spans(accesses@.take(k as int), resource, size),
                    forall|k2: int| 0 <= k2 < accesses@.len() && (#[trigger] accesses@[k2]).resource == resource
                        ==> spec_range_fits(size, accesses@[k2].buffer_range),
                decreases accesses.len() - k,
            {
                assert(accesses@.take(k as int + 1).drop_last() =~= accesses@.take(k as int));
                if accesses[k].resource == resource {
                    let bounds = buffer_range_bounds(size, accesses[k].buffer_range);
                    spans.push(bounds);
                }
                assert(spans@ =~= base + spec_accesses_spans(accesses@.take(k as int + 1), resource, size));
                k = k + 1;
            }
            assert(accesses@.take(k as int) =~= accesses@);
            q = q + 1;
        }
        spans_cover(&spans, start, end)
    }

    /// Resolves a pass's queue preference against the topology and its declared accesses (see
    /// [`spec_resolve_queue`]).
    pub fn resolve_queue(&self, pass: &RgPass, pass_index: usize, families: RgQueueFamilies) -> (r: (RgQueueAssignment, u32))
        requires
            spec_graph_wf(*self),
            pass_index <= self.passes@.len(),
            spec_pass_wf(spec_table(self.resources@), *pass),
        ensures
            r == spec_resolve_queue(*self, *pass, pass_index as int, families),
    {
        let resolved = families.resolve(pass);
        if resolved.0 != RgQueueAssignment::AsyncCompute {
            return resolved;
        }
        if pass.accesses.len() == 0 {
            return (RgQueueAssignment::Graphics, families.graphics);
        }
        let mut k: usize = 0;
        while k < pass.accesses.len()
            invariant
                k <= pass.accesses@.len(),
                spec_graph_wf(*self),
                pass_index <= self.passes@.len(),
                spec_pass_wf(spec_table(self.resources@), *pass),
                forall|j: int| 0 <= j < k ==> spec_access_keeps_async(*self, pass_index as int, #[trigger] pass.accesses@[j]),
            decreases pass.accesses.len() - k,
        {
            let access = pass.accesses[k];
            assert(spec_access_wf(spec_table(self.resources@), pass.accesses@[k as int]));
            let resource = &self.resources[access.resource.index as usize];
            let keeps = if resource.is_image {
                (resource.external_state.is_some() && resource.queue.is_some()) || !resource.touched
                    || self.prior_pass_touches(access.resource, pass_index)
            } else {
                resource.buffer_lifetime != RgBufferLifetime::Imported || (resource.external_buffer_state.is_some()
                    && buffer_state_covers(resource, access.buffer_range))
                    || self.prior_pass_covers_buffer(access.resource, access.buffer_range, pass_index)
            };
            if !keeps {
                return (RgQueueAssignment::Graphics, families.graphics);
            }
            k = k + 1;
        }
        resolved
    }

    /// Resolves every pass's queue preference without changing pass declarations.
    pub fn queue_assignments(&self, families: RgQueueFamilies) -> (r: Vec<RgQueueAssignment>)
        requires
            spec_graph_wf(*self),
        ensures
            r@.len() == self.passes@.len(),
            forall|i: int| 0 <= i < r@.len() ==> r@[i] == spec_resolve_queue(*self, self.passes@[i], i, families).0,
    {
        let mut out: Vec<RgQueueAssignment> = Vec::new();
        let mut i: usize = 0;
        while i < self.passes.len()
            invariant
                i <= self.passes@.len(),
                spec_graph_wf(*self),
                out@.len() == i,
                forall|j: int| 0 <= j < i ==> out@[j] == spec_resolve_queue(*self, self.passes@[j], j, families).0,
            decreases self.passes.len() - i,
        {
            let (queue, _) = self.resolve_queue(&self.passes[i], i, families);
            out.push(queue);
            i = i + 1;
        }
        out
    }
}


/// The cross-frame image state a resource leaves behind.
pub open spec fn spec_exit_image_state(r: RgResourceView) -> RgExternalState {
    RgExternalState {
        layout: r.layout,
        queue_family: r.queue_family,
        queue: r.queue,
        stage: r.last_stage,
        access: r.last_access,
        was_write: r.last_was_write,
        touched: r.touched,
    }
}

/// The byte ranges a buffer carries into the next frame: its ranges, naming no pass of this
/// graph (the next frame's pass indices mean other passes).
pub open spec fn spec_carried_accesses(accs: Seq<RgBufferAccessState>) -> Seq<RgBufferAccessState> {
    accs.map_values(|a: RgBufferAccessState| RgBufferAccessState { last_pass: None, ..a })
}

/// The views of the cross-frame buffer slots.
pub open spec fn spec_buffer_slots(slots: Seq<RgExternalBufferState>) -> Seq<Seq<RgBufferAccessState>> {
    slots.map_values(|s: RgExternalBufferState| s.accesses@)
}

/// Image slots after the resources of `table` write back in order: each resource with a slot
/// overwrites it with its exit state.
pub open spec fn spec_written_images(slots: Seq<RgExternalState>, table: Seq<RgResourceView>) -> Seq<RgExternalState>
    decreases table.len(),
{
    if table.len() == 0 {
        slots
    } else {
        let s = spec_written_images(slots, table.drop_last());
        match table.last().external_state {
            Some(slot) => s.update(slot as int, spec_exit_image_state(table.last())),
            None => s,
        }
    }
}

/// Buffer slots after the resources of `table` write back in order: each resource with a slot
/// overwrites it with its carried ranges.
pub open spec fn spec_written_buffers(
    slots: Seq<Seq<RgBufferAccessState>>,
    table: Seq<RgResourceView>,
) -> Seq<Seq<RgBufferAccessState>>
    decreases table.len(),
{
    if table.len() == 0 {
        slots
    } else {
        let s = spec_written_buffers(slots, table.drop_last());
        match table.last().external_buffer_state {
            Some(slot) => s.update(slot as int, spec_carried_accesses(table.last().buffer_accesses)),
            None => s,
        }
    }
}

/// The graph-owned buffers with a cross-frame slot, in table order, each with its slot's
/// ranges.
pub open spec fn spec_resolved_buffers(
    table: Seq<RgResourceView>,
    slots: Seq<Seq<RgBufferAccessState>>,
) -> Seq<(u64, Seq<RgBufferAccessState>)>
    decreases table.len(),
{
    if table.len() == 0 {
        Seq::empty()
    } else {
        let rest = spec_resolved_buffers(table.drop_last(), slots);
        let r = table.last();
        if !r.is_image && r.buffer_lifetime != RgBufferLifetime::Imported && r.external_buffer_state is Some {
            rest.push((r.buffer, slots[r.external_buffer_state.unwrap() as int]))
        } else {
            rest
        }
    }
}

/// Writing back keeps the number of image slots, when every slot a resource names exists.
pub proof fn lemma_written_images_len(slots: Seq<RgExternalState>, table: Seq<RgResourceView>)
    requires
        forall|j: int| 0 <= j < table.len() ==> ((#[trigger] table[j]).external_state matches Some(x) ==> x < slots.len()),
    ensures
        spec_written_images(slots, table).len() == slots.len(),
    decreases table.len(),
{
    if table.len() > 0 {
        let rest = table.drop_last();
        assert forall|j: int| 0 <= j < rest.len() implies ((#[trigger] rest[j]).external_state matches Some(x) ==> x < slots.len()) by {
            assert(rest[j] == table[j]);
        }
        lemma_written_images_len(slots, rest);
        assert(table.last() == table[table.len() - 1]);
    }
}

/// An image's exit state comes back as the next frame's entry state: when resource `i` is the
/// last of the table to name slot `s`, the written-back slot holds its exit state, and an image
/// imported from that slot starts in the layout, with the owner and the last-access scope, it
/// ended in, naming no pass.
pub proof fn lemma_image_round_trip(
    slots: Seq<RgExternalState>,
    table: Seq<RgResourceView>,
    i: int,
    s: usize,
    image: u64,
    view: u64,
    aspect: u32,
    initial_layout: i32,
)
    requires
        0 <= i < table.len(),
        table[i].external_state == Some(s),
        forall|j: int| i < j < table.len() ==> (#[trigger] table[j]).external_state != Some(s),
        forall|j: int| 0 <= j < table.len() ==> ((#[trigger] table[j]).external_state matches Some(x) ==> x < slots.len()),
    ensures
        spec_written_images(slots, table)[s as int] == spec_exit_image_state(table[i]),
        ({
            let r = spec_imported_image(image, view, aspect, initial_layout, Some(s), spec_written_images(slots, table));
            &&& r.layout == table[i].layout
            &&& r.queue_family == table[i].queue_family
            &&& r.queue == table[i].queue
            &&& r.last_stage == table[i].last_stage
            &&& r.last_access == table[i].last_access
            &&& r.last_was_write == table[i].last_was_write
            &&& r.touched == table[i].touched
            &&& r.last_pass is None
        }),
    decreases table.len(),
{
    let rest = table.drop_last();
    assert forall|j: int| 0 <= j < rest.len() implies ((#[trigger] rest[j]).external_state matches Some(x) ==> x < slots.len()) by {
        assert(rest[j] == table[j]);
    }
    lemma_written_images_len(slots, rest);
    assert(table.last() == table[table.len() - 1]);
    if i < table.len() - 1 {
        assert forall|j: int| i < j < rest.len() implies (#[trigger] rest[j]).external_state != Some(s) by {
            assert(rest[j] == table[j]);
        }
        assert(rest[i] == table[i]);
        lemma_image_round_trip(slots, rest, i, s, image, view, aspect, initial_layout);
    }
}

/// Writing back keeps the number of buffer slots, when every slot a resource names exists.
pub proof fn lemma_written_buffers_len(slots: Seq<Seq<RgBufferAccessState>>, table: Seq<RgResourceView>)
    requires
        forall|j: int| 0 <= j < table.len() ==> ((#[trigger] table[j]).external_buffer_state matches Some(x) ==> x < slots.len()),
    ensures
        spec_written_buffers(slots, table).len() == slots.len(),
    decreases table.len(),
{
    if table.len() > 0 {
        let rest = table.drop_last();
        assert forall|j: int| 0 <= j < rest.len() implies ((#[trigger] rest[j]).external_buffer_state matches Some(x) ==> x < slots.len()) by {
            assert(rest[j] == table[j]);
        }
        lemma_written_buffers_len(slots, rest);
        assert(table.last() == table[table.len() - 1]);
    }
}

/// A buffer's tracked ranges come back in the next frame: when resource `i` is the last of the
/// table to name buffer slot `s`, the written-back slot holds its ranges, with their owners and
/// access scopes, each naming no pass of the frame that wrote them.
pub proof fn lemma_buffer_round_trip(slots: Seq<Seq<RgBufferAccessState>>, table: Seq<RgResourceView>, i: int, s: usize)
    requires
        0 <= i < table.len(),
        table[i].external_buffer_state == Some(s),
        forall|j: int| i < j < table.len() ==> (#[trigger] table[j]).external_buffer_state != Some(s),
        forall|j: int| 0 <= j < table.len() ==> ((#[trigger] table[j]).external_buffer_state matches Some(x) ==> x < slots.len()),
    ensures
        ({
            let carried = spec_written_buffers(slots, table)[s as int];
            let accs = table[i].buffer_accesses;
            &&& carried.len() == accs.len()
            &&& forall|k: int| 0 <= k < accs.len() ==> {
                &&& (#[trigger] carried[k]).last_pass is None
                &&& carried[k].start == accs[k].start
                &&& carried[k].end == accs[k].end
                &&& carried[k].stage == accs[k].stage
                &&& carried[k].access == accs[k].access
                &&& carried[k].is_write == accs[k].is_write
                &&& carried[k].queue_family == accs[k].queue_family
                &&& carried[k].queue == accs[k].queue
            }
        }),
    decreases table.len(),
{
    let rest = table.drop_last();
    assert forall|j: int| 0 <= j < rest.len() implies ((#[trigger] rest[j]).external_buffer_state matches Some(x) ==> x < slots.len()) by {
        assert(rest[j] == table[j]);
    }
    lemma_written_buffers_len(slots, rest);
    assert(table.last() == table[table.len() - 1]);
    if i < table.len() - 1 {
        assert forall|j: int| i < j < rest.len() implies (#[trigger] rest[j]).external_buffer_state != Some(s) by {
            assert(rest[j] == table[j]);
        }
        assert(rest[i] == table[i]);
        lemma_buffer_round_trip(slots, rest, i, s);
    }
}

/// A list of byte-range states with every pass reference dropped.
fn carry_accesses(v: &Vec<RgBufferAccessState>) -> (r: Vec<RgBufferAccessState>)
    ensures
        r@ == spec_carried_accesses(v@),
{
    let mut r: Vec<RgBufferAccessState> = Vec::new();
    let mut i: usize = 0;
    while i < v.len()
        invariant
            i <= v@.len(),
            r@ == spec_carried_accesses(v@.take(i as int)),
        decreases v.len() - i,
    {
        let a = v[i];
        r.push(RgBufferAccessState { last_pass: None, ..a });
        assert(spec_carried_accesses(v@.take(i as int + 1)) =~= spec_carried_accesses(v@.take(i as int)).push(
            RgBufferAccessState { last_pass: None, ..a },
        ));
        i = i + 1;
    }
    assert(v@.take(v@.len() as int) =~= v@);
    r
}

impl RenderGraph {
    /// Writes each resource's resolved exit state into its cross-frame slot: an image's layout,
    /// owner and last access; a buffer's byte ranges, which carry their owners into the next
    /// frame but name no pass of this one.
    pub fn write_external_states(&mut self)
        requires
            forall|i: int| 0 <= i < old(self).resources@.len() ==> ((#[trigger] old(self).resources@[i]).external_state matches Some(s)
                ==> s < old(self).external_states@.len()),
            forall|i: int| 0 <= i < old(self).resources@.len() ==> ((#[trigger] old(self).resources@[i]).external_buffer_state matches Some(s)
                ==> s < old(self).external_buffer_states@.len()),
        ensures
            final(self).resources@ == old(self).resources@,
            final(self).passes@ == old(self).passes@,
            final(self).external_states@ == spec_written_images(old(self).external_states@, spec_table(old(self).resources@)),
            spec_buffer_slots(final(self).external_buffer_states@) == spec_written_buffers(
                spec_buffer_slots(old(self).external_buffer_states@),
                spec_table(old(self).resources@),
            ),
    {
        let ghost table = spec_table(self.resources@);
        let ghost images0 = self.external_states@;
        let ghost buffers0 = spec_buffer_slots(self.external_buffer_states@);
        let mut i: usize = 0;
        while i < self.resources.len()
            invariant
                i <= self.resources@.len(),
                self.resources@ == old(self).resources@,
                self.passes@ == old(self).passes@,
                table == spec_table(self.resources@),
                images0 == old(self).external_states@,
                buffers0 == spec_buffer_slots(old(self).external_buffer_states@),
                self.external_states@.len() == images0.len(),
                self.external_buffer_states@.len() == buffers0.len(),
                forall|k: int| 0 <= k < self.resources@.len() ==> ((#[trigger] self.resources@[k]).external_state matches Some(s)
                    ==> s < images0.len()),
                forall|k: int| 0 <= k < self.resources@.len() ==> ((#[trigger] self.resources@[k]).external_buffer_state matches Some(s)
                    ==> s < buffers0.len()),
                self.external_states@ == spec_written_images(images0, table.take(i as int)),
                spec_buffer_slots(self.external_buffer_states@) == spec_written_buffers(buffers0, table.take(i as int)),
            decreases self.resources.len() - i,
        {
            proof {
                assert(table.take(i as int + 1).drop_last() =~= table.take(i as int));
                assert(table.take(i as int + 1).last() == self.resources@[i as int]@);
                assert(self.resources@[i as int].external_state matches Some(s) ==> s < images0.len());
                assert(self.resources@[i as int].external_buffer_state matches Some(s) ==> s < buffers0.len());
            }
            if let Some(slot) = self.resources[i].external_state {
                let r = &self.resources[i];
                let state = RgExternalState {
                    layout: r.layout,
                    queue_family: r.queue_family,
                    queue: r.queue,
                    stage: r.last_stage,
                    access: r.last_access,
                    was_write: r.last_was_write,
                    touched: r.touched,
                };
                self.external_states.set(slot, state);
            }
            if let Some(slot) = self.resources[i].external_buffer_state {
                let accesses = carry_accesses(&self.resources[i].buffer_accesses);
                let ghost before = self.external_buffer_states@;
                self.external_buffer_states.set(slot, RgExternalBufferState { accesses });
                proof {
                    assert(spec_buffer_slots(self.external_buffer_states@) =~= spec_buffer_slots(before).update(
                        slot as int,
                        spec_carried_accesses(self.resources@[i as int].buffer_accesses@),
                    ));
                }
            }
            i = i + 1;
        }
        proof {
            assert(table.take(table.len() as int) =~= table);
        }
    }

    /// The graph-owned buffers with a cross-frame slot and the ranges each slot holds.
    pub fn resolved_graph_buffer_states(&self) -> (r: Vec<(u64, RgExternalBufferState)>)
        requires
            forall|i: int| 0 <= i < self.resources@.len() ==> ((#[trigger] self.resources@[i]).external_buffer_state matches Some(s)
                ==> s < self.external_buffer_states@.len()),
        ensures
            r@.map_values(|e: (u64, RgExternalBufferState)| (e.0, e.1.accesses@)) == spec_resolved_buffers(
                spec_table(self.resources@),
                spec_buffer_slots(self.external_buffer_states@),
            ),
    {
        let ghost table = spec_table(self.resources@);
        let ghost slots = spec_buffer_slots(self.external_buffer_states@);
        let mut out: Vec<(u64, RgExternalBufferState)> = Vec::new();
        let mut i: usize = 0;
        while i < self.resources.len()
            invariant
                i <= self.resources@.len(),
                table == spec_table(self.resources@),
                slots == spec_buffer_slots(self.external_buffer_states@),
                forall|k: int| 0 <= k < self.resources@.len() ==> ((#[trigger] self.resources@[k]).external_buffer_state matches Some(s)
                    ==> s < self.external_buffer_states@.len()),
                out@.map_values(|e: (u64, RgExternalBufferState)| (e.0, e.1.accesses@)) == spec_resolved_buffers(
                    table.take(i as int),
                    slots,
                ),
            decreases self.resources.len() - i,
        {
            let ghost before = out@;
            proof {
                assert(table.take(i as int + 1).drop_last() =~= table.take(i as int));
                assert(table.take(i as int + 1).last() == self.resources@[i as int]@);
                assert(self.resources@[i as int].external_buffer_state matches Some(s) ==> s < self.external_buffer_states@.len());
            }
            let r = &self.resources[i];
            if !r.is_image && r.buffer_lifetime != RgBufferLifetime::Imported {
                if let Some(slot) = r.external_buffer_state {
                    let accesses = copy_buffer_accesses(&self.external_buffer_states[slot].accesses);
                    out.push((r.buffer, RgExternalBufferState { accesses }));
                    proof {
                        assert(out@.map_values(|e: (u64, RgExternalBufferState)| (e.0, e.1.accesses@)) =~= before.map_values(
                            |e: (u64, RgExternalBufferState)| (e.0, e.1.accesses@),
                        ).push((self.resources@[i as int].buffer, slots[slot as int])));
                    }
                }
            }
            i = i + 1;
        }
        proof {
            assert(table.take(table.len() as int) =~= table);
        }
        out
    }
}

/// The name of a pass slot: the pass's name, or nothing once the pass has been taken.
pub open spec fn spec_pass_name(pass: Option<RgPass>) -> Seq<char> {
    match pass {
        Some(p) => p.name@,
        None => Seq::empty(),
    }
}

/// What a batch is called: the name of its only pass, `first…last` over a longer run, and
/// `queue-ownership-release` for a prologue batch that covers no passes.
pub open spec fn spec_batch_label(passes: Seq<Option<RgPass>>, range: std::ops::Range<usize>) -> Seq<char> {
    if range.end <= range.start {
        "queue-ownership-release"@
    } else if range.end == range.start + 1 {
        spec_pass_name(passes[range.start as int])
    } else {
        spec_pass_name(passes[range.start as int]) + "\u{2026}"@ + spec_pass_name(passes[range.end - 1])
    }
}

fn pass_name(pass: &Option<RgPass>) -> (r: &'static str)
    ensures
        r@ == spec_pass_name(*pass),
{
    match pass {
        Some(p) => p.name,
        None => {
            proof {
                reveal_strlit("");
            }
            ""
        },
    }
}

/// Names a batch by the run of passes it covers, as a hang report attributes a wedged batch:
/// `first…last`, the single pass's name, or `queue-ownership-release` for a prologue batch.
pub fn batch_label(passes: &[Option<RgPass>], range: std::ops::Range<usize>) -> (r: String)
    requires
        range.end <= range.start || range.end <= passes@.len(),
    ensures
        r@ == spec_batch_label(passes@, range),
{
    if range.end <= range.start {
        String::from_str("queue-ownership-release")
    } else if range.end == range.start + 1 {
        String::from_str(pass_name(&passes[range.start]))
    } else {
        let mut label = String::from_str(pass_name(&passes[range.start]));
        label.append("\u{2026}");
        label.append(pass_name(&passes[range.end - 1]));
        label
    }
}

} // verus!

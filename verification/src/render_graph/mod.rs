//! The render graph: `RgUsage`-declared resource usage, derived barriers, and recorded pass order.
//!
//! A pass declares what it touches ([`RgUsage`] reads/writes plus color/depth attachments) and the
//! graph derives every pipeline barrier, every layout transition, and the cross-frame layout
//! write-back. No pass writes a barrier by hand. The derivation is pure logic on plain data: the
//! Vulkan values it speaks of are the integers of [`crate::vk_values`].
pub mod barriers;
pub mod graph;
pub mod plan;
pub mod order;
pub mod ranges;
pub mod record;
pub mod check;

use vstd::prelude::*;
use crate::vk_values::{
    ACCESS_NONE, ACCESS_SHADER_SAMPLED_READ, ASPECT_COLOR, ATTACHMENT_LOAD_OP_CLEAR,
    ATTACHMENT_STORE_OP_STORE, LAYOUT_SHADER_READ_ONLY_OPTIMAL, LAYOUT_UNDEFINED,
    STAGE_FRAGMENT_SHADER, STAGE_TOP_OF_PIPE, WHOLE_SIZE,
};

verus! {

/// What a pass does with a resource, from which the graph derives every barrier and layout
/// transition.
#[derive(Clone, Copy, Debug, PartialEq, Eq, Structural)]
pub enum RgUsage {
    /// Color attachment write.
    ColorWrite,
    /// Depth attachment write.
    DepthWrite,
    /// Sampled in a fragment shader.
    SampledRead,
    /// Storage buffer written by a compute shader.
    StorageWriteCompute,
    /// Storage buffer read by a compute shader.
    StorageReadCompute,
    /// Storage buffer read by a fragment shader.
    StorageReadFragment,
    /// Storage buffer read and written by a compute shader.
    StorageReadWriteCompute,
    /// Image read+written in place by a compute shader (GENERAL layout).
    StorageImageRwCompute,
    /// Image sampled in a compute shader (SHADER_READ_ONLY layout).
    SampledReadCompute,
    /// Buffer read by a transfer operation.
    TransferRead,
    /// Buffer written by a transfer operation.
    TransferWrite,
    /// Buffer read as a vertex stream (the compute-skinned deformed buffer).
    VertexInputRead,
    /// Buffer read as acceleration-structure-build input (the deformed buffer, by a BLAS refit).
    AccelStructBuildRead,
    /// Buffer read as the index stream by an (indirect) indexed draw.
    IndexInputRead,
    /// Buffer read through a shader device address.
    ShaderDeviceAddressRead,
    /// Buffer read as indirect dispatch/draw arguments (or a draw-count).
    IndirectCommandRead,
    /// Buffer read both as indirect draw arguments and as mesh-shader storage data.
    MeshExecutorCommandRead,
    /// Buffer read as the count consumed by an indirect-count draw.
    IndirectCountRead,
}

/// A half-open byte range within a graph buffer.
#[derive(Clone, Copy, Debug, PartialEq, Eq, Structural)]
pub struct RgBufferRange {
    /// First byte in the range.
    pub offset: u64,
    /// Number of bytes in the range.
    pub size: u64,
}

/// Invalid graph-buffer range construction.
#[derive(Clone, Copy, Debug, PartialEq, Eq, Structural)]
pub enum RgBufferRangeError {
    /// A zero-byte range cannot describe an access.
    Empty,
    /// `offset + size` is not representable.
    EndOverflow,
}

impl RgBufferRange {
    /// A range [`RgBufferRange::new`] accepts: non-empty, with a representable end.
    pub open spec fn wf(self) -> bool {
        self.size > 0 && self.offset + self.size <= u64::MAX
    }

    /// Creates a non-empty byte range whose end is representable.
    pub fn new(offset: u64, size: u64) -> (r: Result<Self, RgBufferRangeError>)
        ensures
            size == 0 ==> r == Err::<Self, RgBufferRangeError>(RgBufferRangeError::Empty),
            size != 0 && offset + size > u64::MAX ==> r == Err::<Self, RgBufferRangeError>(
                RgBufferRangeError::EndOverflow,
            ),
            size != 0 && offset + size <= u64::MAX ==> r == Ok::<Self, RgBufferRangeError>(
                RgBufferRange { offset, size },
            ),
            r matches Ok(range) ==> range.wf(),
    {
        if size == 0 {
            return Err(RgBufferRangeError::Empty);
        }
        match offset.checked_add(size) {
            None => Err(RgBufferRangeError::EndOverflow),
            Some(_) => Ok(RgBufferRange { offset, size }),
        }
    }
}

/// Whether a graph buffer is external or allocated for a graph-defined lifetime.
#[derive(Clone, Copy, Debug, PartialEq, Eq, Structural)]
pub enum RgBufferLifetime {
    /// The allocation is owned outside the graph.
    Imported,
    /// The allocation is recyclable after the owning frame fence signals.
    Transient,
    /// The allocation persists between graph instances under a stable key.
    Persistent,
}

/// Size, Vulkan usages, and allocation lifetime for a graph-owned buffer.
#[derive(Clone, Copy, Debug, PartialEq, Eq, Structural)]
pub struct RgBufferDesc {
    /// Requested size in bytes.
    pub size: u64,
    /// Vulkan buffer usage flags.
    pub usage: u32,
    /// Transient or persistent allocation lifetime.
    pub lifetime: RgBufferLifetime,
}

/// Complete declaration of a buffer registered in the graph resource table.
#[derive(Clone, Copy, Debug, PartialEq, Eq, Structural)]
pub struct RgBufferResource {
    /// Vulkan buffer handle (its raw value) supplied by the allocator or importer.
    pub buffer: u64,
    /// Addressable size in bytes.
    pub size: u64,
    /// Vulkan usages the allocation was created with.
    pub usage: u32,
    /// Allocation lifetime represented by this registration.
    pub lifetime: RgBufferLifetime,
}

/// A pass's preferred execution queue.
#[derive(Clone, Copy, Debug, PartialEq, Eq, Structural)]
pub enum RgQueuePreference {
    /// Execute on the graphics queue.
    Graphics,
    /// Execute on an independent compute queue when useful, otherwise graphics.
    AsyncCompute,
}

/// Queue selected for a declared pass.
#[derive(Clone, Copy, Debug, PartialEq, Eq, Structural)]
pub enum RgQueueAssignment {
    /// Graphics queue and family.
    Graphics,
    /// Independent compute queue and family.
    AsyncCompute,
}

/// Queue-family topology used to resolve pass assignments and ownership transfers.
#[derive(Clone, Copy, Debug, PartialEq, Eq)]
pub struct RgQueueFamilies {
    /// Graphics queue-family index.
    pub graphics: u32,
    /// Independent compute family, when the device and submission path support overlap.
    pub async_compute: Option<u32>,
}

/// How a pass body is recorded.
#[derive(Clone, Copy, Debug, PartialEq, Eq, Structural)]
pub enum RgPassKind {
    /// A graphics pass: the recorder opens a rendering scope around the body.
    Graphics,
    /// Graphics commands whose body opens and closes multiple rendering scopes.
    GraphicsCommands,
    /// A compute pass: the body records directly, with no rendering scope.
    Compute,
}

/// The queue a pass's preference resolves to on a topology, before the graph checks that its
/// declared accesses let it leave the graphics queue.
pub open spec fn spec_preferred_queue(
    families: RgQueueFamilies,
    kind: RgPassKind,
    queue: RgQueuePreference,
) -> (RgQueueAssignment, u32) {
    if kind == RgPassKind::Compute && queue == RgQueuePreference::AsyncCompute
        && families.async_compute is Some {
        (RgQueueAssignment::AsyncCompute, families.async_compute.unwrap())
    } else {
        (RgQueueAssignment::Graphics, families.graphics)
    }
}

/// The family a queue identity maps to on a topology.
pub open spec fn spec_queue_family(families: RgQueueFamilies, queue: RgQueueAssignment) -> Option<
    u32,
> {
    match queue {
        RgQueueAssignment::Graphics => Some(families.graphics),
        RgQueueAssignment::AsyncCompute => families.async_compute,
    }
}

impl RgQueueFamilies {
    /// A graphics-only topology.
    pub fn graphics_only(graphics: u32) -> (r: Self)
        ensures
            r.graphics == graphics,
            r.async_compute is None,
    {
        RgQueueFamilies { graphics, async_compute: None }
    }

    /// The queue a pass prefers, resolved against this topology: only a compute pass that opts
    /// into async compute leaves the graphics queue, and only when an independent family exists.
    pub fn resolve(self, pass: &RgPass) -> (r: (RgQueueAssignment, u32))
        ensures
            r == spec_preferred_queue(self, pass.kind, pass.queue),
    {
        if pass.kind == RgPassKind::Compute && pass.queue == RgQueuePreference::AsyncCompute {
            if let Some(family) = self.async_compute {
                return (RgQueueAssignment::AsyncCompute, family);
            }
        }
        (RgQueueAssignment::Graphics, self.graphics)
    }

    /// The family of a queue identity on this topology.
    pub fn family(self, queue: RgQueueAssignment) -> (r: Option<u32>)
        ensures
            r == spec_queue_family(self, queue),
    {
        match queue {
            RgQueueAssignment::Graphics => Some(self.graphics),
            RgQueueAssignment::AsyncCompute => self.async_compute,
        }
    }
}

/// A handle to a graph resource: an index into the graph's resource table.
#[derive(Clone, Copy, Debug, PartialEq, Eq, Structural)]
pub struct RgResource {
    /// The resource's index in the graph's resource table.
    pub index: u32,
}

/// A declared `(resource, usage)` pair — a pass's non-attachment reads/writes.
#[derive(Clone, Copy, Debug, PartialEq, Eq)]
pub struct RgAccess {
    /// The resource being read or written.
    pub resource: RgResource,
    /// How the pass touches it.
    pub usage: RgUsage,
    /// Byte range for a buffer access; `None` means the complete resource.
    pub buffer_range: Option<RgBufferRange>,
}

/// A render area or image extent.
#[derive(Clone, Copy, Debug, Default, PartialEq, Eq, Structural)]
pub struct RgExtent2D {
    /// Width in pixels.
    pub width: u32,
    /// Height in pixels.
    pub height: u32,
}

/// A color or depth attachment binding for a graphics pass. The write usage and the layout
/// transition are derived; only the load/store/clear are declared here.
///
/// `resolve` is an MSAA resolve target: the multisampled attachment is resolved into it at
/// end-of-pass; the graph treats it as a second write of the matching kind. `clear_value` holds
/// the raw 16 bytes of the clear-value union as four words.
#[derive(Clone, Copy, Debug, PartialEq, Eq)]
pub struct RgAttachment {
    /// The attachment image resource.
    pub resource: RgResource,
    /// How the attachment's prior contents are loaded (a `VkAttachmentLoadOp`).
    pub load_op: i32,
    /// Whether the attachment's contents are stored after the pass (a `VkAttachmentStoreOp`).
    pub store_op: i32,
    /// The clear value used when `load_op` is `CLEAR`, as raw words.
    pub clear_value: [u32; 4],
    /// An optional MSAA resolve target written at end-of-pass.
    pub resolve: Option<RgResource>,
}

impl RgAttachment {
    /// A `CLEAR`-then-`STORE` attachment with a zero clear value and no resolve — the common case
    /// for a freshly written target.
    pub fn clear_store(resource: RgResource) -> (r: Self)
        ensures
            r.resource == resource,
            r.load_op == ATTACHMENT_LOAD_OP_CLEAR,
            r.store_op == ATTACHMENT_STORE_OP_STORE,
            r.clear_value@ == seq![0u32, 0u32, 0u32, 0u32],
            r.resolve is None,
    {
        let r = RgAttachment {
            resource,
            load_op: ATTACHMENT_LOAD_OP_CLEAR,
            store_op: ATTACHMENT_STORE_OP_STORE,
            clear_value: [0u32, 0u32, 0u32, 0u32],
            resolve: None,
        };
        assert(r.clear_value@ =~= seq![0u32, 0u32, 0u32, 0u32]);
        r
    }
}

/// A unit of GPU work: its declared resource usage. The body that records it lives beside the
/// graph in the recorder; the graph itself needs only what the pass touches.
#[derive(Clone, Debug)]
pub struct RgPass {
    /// A human-readable name (used for capture-tool labels and profiler scopes).
    pub name: &'static str,
    /// Whether this is a graphics or compute pass.
    pub kind: RgPassKind,
    /// Preferred queue; resolved against the device topology without changing the pass.
    pub queue: RgQueuePreference,
    /// Non-attachment declared reads/writes.
    pub accesses: Vec<RgAccess>,
    /// Color attachments — MRT: index 0 is location 0, etc.
    pub colors: Vec<RgAttachment>,
    /// An optional depth attachment.
    pub depth: Option<RgAttachment>,
    /// The render area for a graphics pass (viewport/scissor/clear extent).
    pub render_area: RgExtent2D,
}

impl RgPass {
    /// A graphics pass with the given name and render area, no accesses or attachments yet.
    pub fn graphics(name: &'static str, render_area: RgExtent2D) -> (r: Self)
        ensures
            r.name == name,
            r.kind == RgPassKind::Graphics,
            r.queue == RgQueuePreference::Graphics,
            r.accesses@ == Seq::<RgAccess>::empty(),
            r.colors@ == Seq::<RgAttachment>::empty(),
            r.depth is None,
            r.render_area == render_area,
    {
        RgPass {
            name,
            kind: RgPassKind::Graphics,
            queue: RgQueuePreference::Graphics,
            accesses: Vec::new(),
            colors: Vec::new(),
            depth: None,
            render_area,
        }
    }

    /// A compute pass with the given name and no render area. It runs on the graphics queue
    /// unless it opts into [`RgQueuePreference::AsyncCompute`] through [`RgPass::queue`].
    pub fn compute(name: &'static str) -> (r: Self)
        ensures
            r.name == name,
            r.kind == RgPassKind::Compute,
            r.queue == RgQueuePreference::Graphics,
            r.accesses@ == Seq::<RgAccess>::empty(),
            r.colors@ == Seq::<RgAttachment>::empty(),
            r.depth is None,
            r.render_area == (RgExtent2D { width: 0, height: 0 }),
    {
        RgPass {
            name,
            kind: RgPassKind::Compute,
            queue: RgQueuePreference::Graphics,
            accesses: Vec::new(),
            colors: Vec::new(),
            depth: None,
            render_area: RgExtent2D { width: 0, height: 0 },
        }
    }

    /// Graphics commands that manage multiple dynamic-rendering scopes in one body.
    pub fn graphics_commands(name: &'static str) -> (r: Self)
        ensures
            r.name == name,
            r.kind == RgPassKind::GraphicsCommands,
            r.queue == RgQueuePreference::Graphics,
            r.accesses@ == Seq::<RgAccess>::empty(),
            r.colors@ == Seq::<RgAttachment>::empty(),
            r.depth is None,
            r.render_area == (RgExtent2D { width: 0, height: 0 }),
    {
        RgPass {
            name,
            kind: RgPassKind::GraphicsCommands,
            queue: RgQueuePreference::Graphics,
            accesses: Vec::new(),
            colors: Vec::new(),
            depth: None,
            render_area: RgExtent2D { width: 0, height: 0 },
        }
    }

    /// Selects the queue this pass prefers.
    pub fn queue(self, queue: RgQueuePreference) -> (r: Self)
        ensures
            r == (RgPass { queue, ..self }),
    {
        let mut s = self;
        s.queue = queue;
        s
    }

    /// Declares a non-attachment `(resource, usage)` access of the complete resource.
    pub fn access(self, resource: RgResource, usage: RgUsage) -> (r: Self)
        ensures
            r.accesses@ == self.accesses@.push(RgAccess { resource, usage, buffer_range: None }),
            r.name == self.name,
            r.kind == self.kind,
            r.queue == self.queue,
            r.colors == self.colors,
            r.depth == self.depth,
            r.render_area == self.render_area,
    {
        let mut s = self;
        s.accesses.push(RgAccess { resource, usage, buffer_range: None });
        s
    }

    /// Declares a byte-ranged buffer access.
    pub fn access_buffer(self, resource: RgResource, range: RgBufferRange, usage: RgUsage) -> (r:
        Self)
        ensures
            r.accesses@ == self.accesses@.push(
                RgAccess { resource, usage, buffer_range: Some(range) },
            ),
            r.name == self.name,
            r.kind == self.kind,
            r.queue == self.queue,
            r.colors == self.colors,
            r.depth == self.depth,
            r.render_area == self.render_area,
    {
        let mut s = self;
        s.accesses.push(RgAccess { resource, usage, buffer_range: Some(range) });
        s
    }

    /// Adds a color attachment.
    pub fn color(self, attachment: RgAttachment) -> (r: Self)
        ensures
            r.colors@ == self.colors@.push(attachment),
            r.name == self.name,
            r.kind == self.kind,
            r.queue == self.queue,
            r.accesses == self.accesses,
            r.depth == self.depth,
            r.render_area == self.render_area,
    {
        let mut s = self;
        s.colors.push(attachment);
        s
    }

    /// Sets the depth attachment.
    pub fn depth_attachment(self, attachment: RgAttachment) -> (r: Self)
        ensures
            r == (RgPass { depth: Some(attachment), ..self }),
    {
        let mut s = self;
        s.depth = Some(attachment);
        s
    }
}

/// The stage/access/layout/is-write tuple a usage maps to — the table that drives barrier
/// derivation. `layout` is `UNDEFINED` for buffer usages (no layout).
#[derive(Clone, Copy, Debug, PartialEq, Eq, Structural)]
pub struct RgUsageInfo {
    /// Pipeline stages of the access.
    pub stage: u64,
    /// Access kinds of the access.
    pub access: u64,
    /// Image layout the access needs (`UNDEFINED` for buffers).
    pub layout: i32,
    /// Whether the access writes.
    pub is_write: bool,
}

/// An image memory barrier's subresource range.
#[derive(Clone, Copy, Debug, PartialEq, Eq, Structural)]
pub struct RgSubresourceRange {
    /// Image aspects covered.
    pub aspect_mask: u32,
    /// First mip level.
    pub base_mip_level: u32,
    /// Mip level count.
    pub level_count: u32,
    /// First array layer.
    pub base_array_layer: u32,
    /// Array layer count.
    pub layer_count: u32,
}

/// An image memory barrier (the fields of `VkImageMemoryBarrier2` the graph sets).
#[derive(Clone, Copy, Debug, PartialEq, Eq, Structural)]
pub struct RgImageBarrier {
    /// Source stages.
    pub src_stage_mask: u64,
    /// Source accesses.
    pub src_access_mask: u64,
    /// Destination stages.
    pub dst_stage_mask: u64,
    /// Destination accesses.
    pub dst_access_mask: u64,
    /// Layout before the barrier.
    pub old_layout: i32,
    /// Layout after the barrier.
    pub new_layout: i32,
    /// Releasing queue family, or `QUEUE_FAMILY_IGNORED`.
    pub src_queue_family_index: u32,
    /// Acquiring queue family, or `QUEUE_FAMILY_IGNORED`.
    pub dst_queue_family_index: u32,
    /// The image (raw handle).
    pub image: u64,
    /// The subresources covered.
    pub subresource_range: RgSubresourceRange,
}

/// A buffer memory barrier (the fields of `VkBufferMemoryBarrier2` the graph sets).
#[derive(Clone, Copy, Debug, PartialEq, Eq, Structural)]
pub struct RgBufferBarrier {
    /// Source stages.
    pub src_stage_mask: u64,
    /// Source accesses.
    pub src_access_mask: u64,
    /// Destination stages.
    pub dst_stage_mask: u64,
    /// Destination accesses.
    pub dst_access_mask: u64,
    /// Releasing queue family, or `QUEUE_FAMILY_IGNORED`.
    pub src_queue_family_index: u32,
    /// Acquiring queue family, or `QUEUE_FAMILY_IGNORED`.
    pub dst_queue_family_index: u32,
    /// The buffer (raw handle).
    pub buffer: u64,
    /// First byte covered.
    pub offset: u64,
    /// Bytes covered.
    pub size: u64,
}

/// The tracked access state of one byte range of a buffer.
#[derive(Clone, Copy, Debug, PartialEq, Eq)]
pub struct RgBufferAccessState {
    /// First byte of the range.
    pub start: u64,
    /// One past the last byte of the range.
    pub end: u64,
    /// Stages of the last access (reads accumulate).
    pub stage: u64,
    /// Access kinds of the last access (reads accumulate).
    pub access: u64,
    /// Whether the last access wrote.
    pub is_write: bool,
    /// The queue family that owns the range.
    pub queue_family: u32,
    /// The queue identity that last accessed the range.
    pub queue: RgQueueAssignment,
    /// The pass of this graph that last accessed the range, if any.
    pub last_pass: Option<usize>,
}

/// Cross-frame state for one exclusive imported image.
#[derive(Clone, Copy, Debug, PartialEq, Eq)]
pub struct RgExternalState {
    /// Current image layout.
    pub layout: i32,
    /// Queue family that owns the image, or `None` before its first graph use.
    pub queue_family: Option<u32>,
    /// Queue identity that most recently accessed the image.
    pub queue: Option<RgQueueAssignment>,
    /// Stages of the last access.
    pub stage: u64,
    /// Access kinds of the last access.
    pub access: u64,
    /// Whether the last access wrote.
    pub was_write: bool,
    /// Whether the image has content that later accesses must order against.
    pub touched: bool,
}

impl RgExternalState {
    /// First-use state for an image in `layout`: no owner, the scope a read of a
    /// `SHADER_READ_ONLY` image leaves (or none), touched unless the layout is undefined.
    pub open spec fn spec_new(layout: i32) -> Self {
        RgExternalState {
            layout,
            queue_family: None,
            queue: None,
            stage: if layout == LAYOUT_SHADER_READ_ONLY_OPTIMAL { STAGE_FRAGMENT_SHADER } else { STAGE_TOP_OF_PIPE },
            access: if layout == LAYOUT_SHADER_READ_ONLY_OPTIMAL { ACCESS_SHADER_SAMPLED_READ } else { ACCESS_NONE },
            was_write: false,
            touched: layout != LAYOUT_UNDEFINED,
        }
    }

    /// Creates first-use state for an image in `layout` with no established queue owner.
    pub fn new(layout: i32) -> (r: Self)
        ensures
            r == Self::spec_new(layout),
            r.layout == layout,
            r.queue_family is None,
            r.queue is None,
            layout == LAYOUT_SHADER_READ_ONLY_OPTIMAL ==> r.stage == STAGE_FRAGMENT_SHADER
                && r.access == ACCESS_SHADER_SAMPLED_READ,
            layout != LAYOUT_SHADER_READ_ONLY_OPTIMAL ==> r.stage == STAGE_TOP_OF_PIPE
                && r.access == ACCESS_NONE,
            !r.was_write,
            r.touched == (layout != LAYOUT_UNDEFINED),
    {
        let (stage, access) = if layout == LAYOUT_SHADER_READ_ONLY_OPTIMAL {
            (STAGE_FRAGMENT_SHADER, ACCESS_SHADER_SAMPLED_READ)
        } else {
            (STAGE_TOP_OF_PIPE, ACCESS_NONE)
        };
        RgExternalState {
            layout,
            queue_family: None,
            queue: None,
            stage,
            access,
            was_write: false,
            touched: layout != LAYOUT_UNDEFINED,
        }
    }

    /// The same state with its layout replaced.
    pub fn with_layout(self, layout: i32) -> (r: Self)
        ensures
            r == (RgExternalState { layout, ..self }),
    {
        let mut s = self;
        s.layout = layout;
        s
    }
}

/// Cross-frame byte-range ownership and access state for one exclusive buffer.
#[derive(Clone, Debug)]
pub struct RgExternalBufferState {
    /// The tracked byte ranges.
    pub accesses: Vec<RgBufferAccessState>,
}

impl RgExternalBufferState {
    /// A buffer with no tracked ranges.
    pub fn new() -> (r: Self)
        ensures
            r.accesses@ == Seq::<RgBufferAccessState>::empty(),
    {
        RgExternalBufferState { accesses: Vec::new() }
    }
}

/// Per-resource tracked state, advanced as passes are compiled in order.
///
/// An imported image may carry `external_state`, an index into the graph's external image
/// slots; the slot seeds layout, access scope, and queue ownership on import and receives the
/// resolved exit state. Buffers carry the same through `external_buffer_state`.
#[derive(Clone, Debug)]
pub struct RgResourceState {
    /// Image (true) or buffer (false).
    pub is_image: bool,
    /// Raw image handle (0 for a buffer).
    pub image: u64,
    /// Raw image-view handle (0 for a buffer).
    pub view: u64,
    /// Raw buffer handle (0 for an image).
    pub buffer: u64,
    /// Declared buffer size, or `WHOLE_SIZE` when unknown.
    pub buffer_size: u64,
    /// Accumulated buffer usage flags.
    pub buffer_usage: u32,
    /// Buffer allocation lifetime.
    pub buffer_lifetime: RgBufferLifetime,
    /// Byte-range access state of a buffer.
    pub buffer_accesses: Vec<RgBufferAccessState>,
    /// Image aspect mask.
    pub aspect: u32,
    /// Current image layout.
    pub layout: i32,
    /// Stages of the last access.
    pub last_stage: u64,
    /// Access kinds of the last access.
    pub last_access: u64,
    /// Whether the last access wrote.
    pub last_was_write: bool,
    /// Whether any access (or the entry state) has touched the resource.
    pub touched: bool,
    /// Cross-frame image slot.
    pub external_state: Option<usize>,
    /// Cross-frame buffer slot.
    pub external_buffer_state: Option<usize>,
    /// Owning queue family of an image.
    pub queue_family: Option<u32>,
    /// Queue identity that last accessed an image.
    pub queue: Option<RgQueueAssignment>,
    /// Pass that last accessed an image.
    pub last_pass: Option<usize>,
}

impl Default for RgResourceState {
    /// The untouched default state: a buffer of unknown size with no accesses.
    fn default() -> (r: Self)
        ensures
            r.is_default(),
    {
        RgResourceState {
            is_image: false,
            image: 0,
            view: 0,
            buffer: 0,
            buffer_size: WHOLE_SIZE,
            buffer_usage: 0,
            buffer_lifetime: RgBufferLifetime::Imported,
            buffer_accesses: Vec::new(),
            aspect: ASPECT_COLOR,
            layout: LAYOUT_UNDEFINED,
            last_stage: STAGE_TOP_OF_PIPE,
            last_access: ACCESS_NONE,
            last_was_write: false,
            touched: false,
            external_state: None,
            external_buffer_state: None,
            queue_family: None,
            queue: None,
            last_pass: None,
        }
    }
}

impl RgResourceState {
    /// The untouched default state.
    pub open spec fn is_default(self) -> bool {
        &&& !self.is_image
        &&& self.image == 0
        &&& self.view == 0
        &&& self.buffer == 0
        &&& self.buffer_size == WHOLE_SIZE
        &&& self.buffer_usage == 0
        &&& self.buffer_lifetime == RgBufferLifetime::Imported
        &&& self.buffer_accesses@.len() == 0
        &&& self.aspect == ASPECT_COLOR
        &&& self.layout == LAYOUT_UNDEFINED
        &&& self.last_stage == STAGE_TOP_OF_PIPE
        &&& self.last_access == ACCESS_NONE
        &&& !self.last_was_write
        &&& !self.touched
        &&& self.external_state is None
        &&& self.external_buffer_state is None
        &&& self.queue_family is None
        &&& self.queue is None
        &&& self.last_pass is None
    }
}

/// The mathematical view of a resource's tracked state: the same fields, its byte-range states
/// as a sequence.
pub struct RgResourceView {
    /// Image (true) or buffer (false).
    pub is_image: bool,
    /// Raw image handle.
    pub image: u64,
    /// Raw image-view handle.
    pub view: u64,
    /// Raw buffer handle.
    pub buffer: u64,
    /// Declared buffer size, or `WHOLE_SIZE`.
    pub buffer_size: u64,
    /// Accumulated buffer usage flags.
    pub buffer_usage: u32,
    /// Buffer allocation lifetime.
    pub buffer_lifetime: RgBufferLifetime,
    /// Byte-range access states of a buffer.
    pub buffer_accesses: Seq<RgBufferAccessState>,
    /// Image aspect mask.
    pub aspect: u32,
    /// Current image layout.
    pub layout: i32,
    /// Stages of the last access.
    pub last_stage: u64,
    /// Access kinds of the last access.
    pub last_access: u64,
    /// Whether the last access wrote.
    pub last_was_write: bool,
    /// Whether anything has touched the resource.
    pub touched: bool,
    /// Cross-frame image slot.
    pub external_state: Option<usize>,
    /// Cross-frame buffer slot.
    pub external_buffer_state: Option<usize>,
    /// Owning queue family of an image.
    pub queue_family: Option<u32>,
    /// Queue identity that last accessed an image.
    pub queue: Option<RgQueueAssignment>,
    /// Pass that last accessed an image.
    pub last_pass: Option<usize>,
}

impl View for RgResourceState {
    type V = RgResourceView;

    open spec fn view(&self) -> RgResourceView {
        RgResourceView {
            is_image: self.is_image,
            image: self.image,
            view: self.view,
            buffer: self.buffer,
            buffer_size: self.buffer_size,
            buffer_usage: self.buffer_usage,
            buffer_lifetime: self.buffer_lifetime,
            buffer_accesses: self.buffer_accesses@,
            aspect: self.aspect,
            layout: self.layout,
            last_stage: self.last_stage,
            last_access: self.last_access,
            last_was_write: self.last_was_write,
            touched: self.touched,
            external_state: self.external_state,
            external_buffer_state: self.external_buffer_state,
            queue_family: self.queue_family,
            queue: self.queue,
            last_pass: self.last_pass,
        }
    }
}

/// Copies a list of byte-range states.
pub fn copy_buffer_accesses(v: &Vec<RgBufferAccessState>) -> (r: Vec<RgBufferAccessState>)
    ensures
        r@ == v@,
{
    let mut r: Vec<RgBufferAccessState> = Vec::new();
    let mut i: usize = 0;
    while i < v.len()
        invariant
            i <= v.len(),
            r@ == v@.take(i as int),
        decreases v.len() - i,
    {
        r.push(v[i]);
        assert(r@ =~= v@.take(i as int + 1));
        i = i + 1;
    }
    assert(r@ =~= v@);
    r
}

impl RgResourceState {
    /// A copy of the state.
    pub fn copy(&self) -> (r: Self)
        ensures
            r@ == self@,
    {
        RgResourceState {
            is_image: self.is_image,
            image: self.image,
            view: self.view,
            buffer: self.buffer,
            buffer_size: self.buffer_size,
            buffer_usage: self.buffer_usage,
            buffer_lifetime: self.buffer_lifetime,
            buffer_accesses: copy_buffer_accesses(&self.buffer_accesses),
            aspect: self.aspect,
            layout: self.layout,
            last_stage: self.last_stage,
            last_access: self.last_access,
            last_was_write: self.last_was_write,
            touched: self.touched,
            external_state: self.external_state,
            external_buffer_state: self.external_buffer_state,
            queue_family: self.queue_family,
            queue: self.queue,
            last_pass: self.last_pass,
        }
    }
}

impl RgExternalBufferState {
    /// A copy of the state.
    pub fn copy(&self) -> (r: Self)
        ensures
            r.accesses@ == self.accesses@,
    {
        RgExternalBufferState { accesses: copy_buffer_accesses(&self.accesses) }
    }
}

} // verus!

//! Barrier derivation: the per-usage stage/access/layout table, the declared-access validation,
//! and the resource-state transitions each pass produces.
use vstd::prelude::*;
use crate::vk_values::{
    ACCESS_COLOR_ATTACHMENT_WRITE, ACCESS_DEPTH_STENCIL_ATTACHMENT_WRITE, ACCESS_INDEX_READ,
    ACCESS_INDIRECT_COMMAND_READ, ACCESS_MEMORY_READ, ACCESS_MEMORY_WRITE, ACCESS_NONE,
    ACCESS_SHADER_READ, ACCESS_SHADER_SAMPLED_READ, ACCESS_SHADER_STORAGE_READ,
    ACCESS_SHADER_STORAGE_WRITE, ACCESS_TRANSFER_READ, ACCESS_TRANSFER_WRITE,
    ACCESS_VERTEX_ATTRIBUTE_READ, BUFFER_USAGE_ACCELERATION_STRUCTURE_BUILD_INPUT_READ_ONLY_KHR,
    BUFFER_USAGE_INDEX_BUFFER, BUFFER_USAGE_INDIRECT_BUFFER, BUFFER_USAGE_SHADER_DEVICE_ADDRESS,
    BUFFER_USAGE_STORAGE_BUFFER, BUFFER_USAGE_TRANSFER_DST, BUFFER_USAGE_TRANSFER_SRC,
    BUFFER_USAGE_VERTEX_BUFFER, GRAPHICS_ONLY_STAGES, LAYOUT_COLOR_ATTACHMENT_OPTIMAL,
    LAYOUT_DEPTH_ATTACHMENT_OPTIMAL, LAYOUT_GENERAL, LAYOUT_SHADER_READ_ONLY_OPTIMAL,
    LAYOUT_UNDEFINED, QUEUE_FAMILY_IGNORED, REMAINING_ARRAY_LAYERS, REMAINING_MIP_LEVELS,
    STAGE_ACCELERATION_STRUCTURE_BUILD_KHR, STAGE_ALL_COMMANDS, STAGE_COLOR_ATTACHMENT_OUTPUT,
    STAGE_COMPUTE_SHADER, STAGE_COPY, STAGE_DRAW_INDIRECT, STAGE_EARLY_FRAGMENT_TESTS,
    STAGE_FRAGMENT_SHADER, STAGE_INDEX_INPUT, STAGE_LATE_FRAGMENT_TESTS, STAGE_MESH_SHADER_EXT,
    STAGE_NONE, STAGE_TOP_OF_PIPE, STAGE_VERTEX_ATTRIBUTE_INPUT, WHOLE_SIZE,
};
use super::{
    RgBufferAccessState, RgBufferBarrier, RgBufferLifetime, RgBufferRange, RgImageBarrier,
    RgQueueAssignment, RgResourceState, RgResourceView, RgSubresourceRange, RgUsage, RgUsageInfo,
};

verus! {

/// The stage/access/layout/is-write contract for each usage.
pub open spec fn spec_usage_info(usage: RgUsage) -> RgUsageInfo {
    match usage {
        RgUsage::ColorWrite => RgUsageInfo {
            stage: STAGE_COLOR_ATTACHMENT_OUTPUT,
            access: ACCESS_COLOR_ATTACHMENT_WRITE,
            layout: LAYOUT_COLOR_ATTACHMENT_OPTIMAL,
            is_write: true,
        },
        RgUsage::DepthWrite => RgUsageInfo {
            stage: STAGE_EARLY_FRAGMENT_TESTS | STAGE_LATE_FRAGMENT_TESTS,
            access: ACCESS_DEPTH_STENCIL_ATTACHMENT_WRITE,
            layout: LAYOUT_DEPTH_ATTACHMENT_OPTIMAL,
            is_write: true,
        },
        RgUsage::SampledRead => RgUsageInfo {
            stage: STAGE_FRAGMENT_SHADER,
            access: ACCESS_SHADER_SAMPLED_READ,
            layout: LAYOUT_SHADER_READ_ONLY_OPTIMAL,
            is_write: false,
        },
        RgUsage::StorageWriteCompute => RgUsageInfo {
            stage: STAGE_COMPUTE_SHADER,
            access: ACCESS_SHADER_STORAGE_WRITE,
            layout: LAYOUT_UNDEFINED,
            is_write: true,
        },
        RgUsage::StorageReadCompute => RgUsageInfo {
            stage: STAGE_COMPUTE_SHADER,
            access: ACCESS_SHADER_STORAGE_READ,
            layout: LAYOUT_UNDEFINED,
            is_write: false,
        },
        RgUsage::StorageReadFragment => RgUsageInfo {
            stage: STAGE_FRAGMENT_SHADER,
            access: ACCESS_SHADER_STORAGE_READ,
            layout: LAYOUT_UNDEFINED,
            is_write: false,
        },
        RgUsage::StorageReadWriteCompute => RgUsageInfo {
            stage: STAGE_COMPUTE_SHADER,
            access: ACCESS_SHADER_STORAGE_READ | ACCESS_SHADER_STORAGE_WRITE,
            layout: LAYOUT_UNDEFINED,
            is_write: true,
        },
        RgUsage::StorageImageRwCompute => RgUsageInfo {
            stage: STAGE_COMPUTE_SHADER,
            access: ACCESS_SHADER_STORAGE_READ | ACCESS_SHADER_STORAGE_WRITE,
            layout: LAYOUT_GENERAL,
            is_write: true,
        },
        RgUsage::SampledReadCompute => RgUsageInfo {
            stage: STAGE_COMPUTE_SHADER,
            access: ACCESS_SHADER_SAMPLED_READ,
            layout: LAYOUT_SHADER_READ_ONLY_OPTIMAL,
            is_write: false,
        },
        RgUsage::TransferRead => RgUsageInfo {
            stage: STAGE_COPY,
            access: ACCESS_TRANSFER_READ,
            layout: LAYOUT_UNDEFINED,
            is_write: false,
        },
        RgUsage::TransferWrite => RgUsageInfo {
            stage: STAGE_COPY,
            access: ACCESS_TRANSFER_WRITE,
            layout: LAYOUT_UNDEFINED,
            is_write: true,
        },
        RgUsage::VertexInputRead => RgUsageInfo {
            stage: STAGE_VERTEX_ATTRIBUTE_INPUT,
            access: ACCESS_VERTEX_ATTRIBUTE_READ,
            layout: LAYOUT_UNDEFINED,
            is_write: false,
        },
        RgUsage::AccelStructBuildRead => RgUsageInfo {
            stage: STAGE_ACCELERATION_STRUCTURE_BUILD_KHR,
            access: ACCESS_SHADER_READ,
            layout: LAYOUT_UNDEFINED,
            is_write: false,
        },
        RgUsage::IndexInputRead => RgUsageInfo {
            stage: STAGE_INDEX_INPUT,
            access: ACCESS_INDEX_READ,
            layout: LAYOUT_UNDEFINED,
            is_write: false,
        },
        RgUsage::ShaderDeviceAddressRead => RgUsageInfo {
            stage: STAGE_ALL_COMMANDS,
            access: ACCESS_SHADER_READ,
            layout: LAYOUT_UNDEFINED,
            is_write: false,
        },
        RgUsage::IndirectCommandRead => RgUsageInfo {
            stage: STAGE_DRAW_INDIRECT,
            access: ACCESS_INDIRECT_COMMAND_READ,
            layout: LAYOUT_UNDEFINED,
            is_write: false,
        },
        RgUsage::MeshExecutorCommandRead => RgUsageInfo {
            stage: STAGE_DRAW_INDIRECT | STAGE_MESH_SHADER_EXT,
            access: ACCESS_INDIRECT_COMMAND_READ | ACCESS_SHADER_STORAGE_READ,
            layout: LAYOUT_UNDEFINED,
            is_write: false,
        },
        RgUsage::IndirectCountRead => RgUsageInfo {
            stage: STAGE_DRAW_INDIRECT,
            access: ACCESS_INDIRECT_COMMAND_READ,
            layout: LAYOUT_UNDEFINED,
            is_write: false,
        },
    }
}

/// The stage/access/layout/is-write contract for each usage — the load-bearing source of truth.
/// `DRAW_INDIRECT` is the stage where both indirect draw and indirect dispatch parameters are
/// consumed.
pub fn usage_info(usage: RgUsage) -> (info: RgUsageInfo)
    ensures
        info == spec_usage_info(usage),
{
    match usage {
        RgUsage::ColorWrite => RgUsageInfo {
            stage: STAGE_COLOR_ATTACHMENT_OUTPUT,
            access: ACCESS_COLOR_ATTACHMENT_WRITE,
            layout: LAYOUT_COLOR_ATTACHMENT_OPTIMAL,
            is_write: true,
        },
        RgUsage::DepthWrite => RgUsageInfo {
            stage: STAGE_EARLY_FRAGMENT_TESTS | STAGE_LATE_FRAGMENT_TESTS,
            access: ACCESS_DEPTH_STENCIL_ATTACHMENT_WRITE,
            layout: LAYOUT_DEPTH_ATTACHMENT_OPTIMAL,
            is_write: true,
        },
        RgUsage::SampledRead => RgUsageInfo {
            stage: STAGE_FRAGMENT_SHADER,
            access: ACCESS_SHADER_SAMPLED_READ,
            layout: LAYOUT_SHADER_READ_ONLY_OPTIMAL,
            is_write: false,
        },
        RgUsage::StorageWriteCompute => RgUsageInfo {
            stage: STAGE_COMPUTE_SHADER,
            access: ACCESS_SHADER_STORAGE_WRITE,
            layout: LAYOUT_UNDEFINED,
            is_write: true,
        },
        RgUsage::StorageReadCompute => RgUsageInfo {
            stage: STAGE_COMPUTE_SHADER,
            access: ACCESS_SHADER_STORAGE_READ,
            layout: LAYOUT_UNDEFINED,
            is_write: false,
        },
        RgUsage::StorageReadFragment => RgUsageInfo {
            stage: STAGE_FRAGMENT_SHADER,
            access: ACCESS_SHADER_STORAGE_READ,
            layout: LAYOUT_UNDEFINED,
            is_write: false,
        },
        RgUsage::StorageReadWriteCompute => RgUsageInfo {
            stage: STAGE_COMPUTE_SHADER,
            access: ACCESS_SHADER_STORAGE_READ | ACCESS_SHADER_STORAGE_WRITE,
            layout: LAYOUT_UNDEFINED,
            is_write: true,
        },
        RgUsage::StorageImageRwCompute => RgUsageInfo {
            stage: STAGE_COMPUTE_SHADER,
            access: ACCESS_SHADER_STORAGE_READ | ACCESS_SHADER_STORAGE_WRITE,
            layout: LAYOUT_GENERAL,
            is_write: true,
        },
        RgUsage::SampledReadCompute => RgUsageInfo {
            stage: STAGE_COMPUTE_SHADER,
            access: ACCESS_SHADER_SAMPLED_READ,
            layout: LAYOUT_SHADER_READ_ONLY_OPTIMAL,
            is_write: false,
        },
        RgUsage::TransferRead => RgUsageInfo {
            stage: STAGE_COPY,
            access: ACCESS_TRANSFER_READ,
            layout: LAYOUT_UNDEFINED,
            is_write: false,
        },
        RgUsage::TransferWrite => RgUsageInfo {
            stage: STAGE_COPY,
            access: ACCESS_TRANSFER_WRITE,
            layout: LAYOUT_UNDEFINED,
            is_write: true,
        },
        RgUsage::VertexInputRead => RgUsageInfo {
            stage: STAGE_VERTEX_ATTRIBUTE_INPUT,
            access: ACCESS_VERTEX_ATTRIBUTE_READ,
            layout: LAYOUT_UNDEFINED,
            is_write: false,
        },
        RgUsage::AccelStructBuildRead => RgUsageInfo {
            stage: STAGE_ACCELERATION_STRUCTURE_BUILD_KHR,
            access: ACCESS_SHADER_READ,
            layout: LAYOUT_UNDEFINED,
            is_write: false,
        },
        RgUsage::IndexInputRead => RgUsageInfo {
            stage: STAGE_INDEX_INPUT,
            access: ACCESS_INDEX_READ,
            layout: LAYOUT_UNDEFINED,
            is_write: false,
        },
        RgUsage::ShaderDeviceAddressRead => RgUsageInfo {
            stage: STAGE_ALL_COMMANDS,
            access: ACCESS_SHADER_READ,
            layout: LAYOUT_UNDEFINED,
            is_write: false,
        },
        RgUsage::IndirectCommandRead => RgUsageInfo {
            stage: STAGE_DRAW_INDIRECT,
            access: ACCESS_INDIRECT_COMMAND_READ,
            layout: LAYOUT_UNDEFINED,
            is_write: false,
        },
        RgUsage::MeshExecutorCommandRead => RgUsageInfo {
            stage: STAGE_DRAW_INDIRECT | STAGE_MESH_SHADER_EXT,
            access: ACCESS_INDIRECT_COMMAND_READ | ACCESS_SHADER_STORAGE_READ,
            layout: LAYOUT_UNDEFINED,
            is_write: false,
        },
        RgUsage::IndirectCountRead => RgUsageInfo {
            stage: STAGE_DRAW_INDIRECT,
            access: ACCESS_INDIRECT_COMMAND_READ,
            layout: LAYOUT_UNDEFINED,
            is_write: false,
        },
    }
}

/// The Vulkan buffer usage a buffer access needs, or `None` for an image-only usage.
pub open spec fn spec_required_buffer_usage(usage: RgUsage) -> Option<u32> {
    match usage {
        RgUsage::StorageWriteCompute
        | RgUsage::StorageReadCompute
        | RgUsage::StorageReadFragment
        | RgUsage::StorageReadWriteCompute => Some(BUFFER_USAGE_STORAGE_BUFFER),
        RgUsage::TransferRead => Some(BUFFER_USAGE_TRANSFER_SRC),
        RgUsage::TransferWrite => Some(BUFFER_USAGE_TRANSFER_DST),
        RgUsage::VertexInputRead => Some(BUFFER_USAGE_VERTEX_BUFFER),
        RgUsage::IndexInputRead => Some(BUFFER_USAGE_INDEX_BUFFER),
        RgUsage::ShaderDeviceAddressRead => Some(BUFFER_USAGE_SHADER_DEVICE_ADDRESS),
        RgUsage::IndirectCommandRead | RgUsage::IndirectCountRead => Some(
            BUFFER_USAGE_INDIRECT_BUFFER,
        ),
        RgUsage::MeshExecutorCommandRead => Some(
            BUFFER_USAGE_INDIRECT_BUFFER | BUFFER_USAGE_STORAGE_BUFFER,
        ),
        RgUsage::AccelStructBuildRead => Some(
            BUFFER_USAGE_ACCELERATION_STRUCTURE_BUILD_INPUT_READ_ONLY_KHR,
        ),
        RgUsage::ColorWrite
        | RgUsage::DepthWrite
        | RgUsage::SampledRead
        | RgUsage::StorageImageRwCompute
        | RgUsage::SampledReadCompute => None,
    }
}

/// The Vulkan buffer usage a buffer access needs, or `None` for an image-only usage.
pub fn required_buffer_usage(usage: RgUsage) -> (r: Option<u32>)
    ensures
        r == spec_required_buffer_usage(usage),
{
    match usage {
        RgUsage::StorageWriteCompute
        | RgUsage::StorageReadCompute
        | RgUsage::StorageReadFragment
        | RgUsage::StorageReadWriteCompute => Some(BUFFER_USAGE_STORAGE_BUFFER),
        RgUsage::TransferRead => Some(BUFFER_USAGE_TRANSFER_SRC),
        RgUsage::TransferWrite => Some(BUFFER_USAGE_TRANSFER_DST),
        RgUsage::VertexInputRead => Some(BUFFER_USAGE_VERTEX_BUFFER),
        RgUsage::IndexInputRead => Some(BUFFER_USAGE_INDEX_BUFFER),
        RgUsage::ShaderDeviceAddressRead => Some(BUFFER_USAGE_SHADER_DEVICE_ADDRESS),
        RgUsage::IndirectCommandRead | RgUsage::IndirectCountRead => Some(
            BUFFER_USAGE_INDIRECT_BUFFER,
        ),
        RgUsage::MeshExecutorCommandRead => Some(
            BUFFER_USAGE_INDIRECT_BUFFER | BUFFER_USAGE_STORAGE_BUFFER,
        ),
        RgUsage::AccelStructBuildRead => Some(
            BUFFER_USAGE_ACCELERATION_STRUCTURE_BUILD_INPUT_READ_ONLY_KHR,
        ),
        RgUsage::ColorWrite
        | RgUsage::DepthWrite
        | RgUsage::SampledRead
        | RgUsage::StorageImageRwCompute
        | RgUsage::SampledReadCompute => None,
    }
}

/// Whether a usage may be declared on a resource: a buffer usage on a buffer whose recorded
/// creation usages (when the graph owns the allocation and knows them) include the required
/// flags; an image usage on an image. An imported buffer's creation flags are its owner's
/// contract, so only graph-owned allocations are checked.
pub open spec fn spec_declared_access_ok(resource: RgResourceView, usage: RgUsage) -> bool {
    match spec_required_buffer_usage(usage) {
        Some(required) => {
            &&& !resource.is_image
            &&& (resource.buffer_lifetime == RgBufferLifetime::Imported || resource.buffer_usage
                == 0 || (resource.buffer_usage & required) == required)
        },
        None => resource.is_image,
    }
}

/// Checks a declared access against its resource (see [`spec_declared_access_ok`]); the graph
/// compiles only declarations this accepts.
pub fn validate_declared_access(resource: &RgResourceState, usage: RgUsage) -> (ok: bool)
    ensures
        ok == spec_declared_access_ok(resource@, usage),
{
    match required_buffer_usage(usage) {
        Some(required) => !resource.is_image && (resource.buffer_lifetime
            == RgBufferLifetime::Imported || resource.buffer_usage == 0 || (resource.buffer_usage
            & required) == required),
        None => resource.is_image,
    }
}

/// Seeds a freshly-imported image's source scope from its entry layout: a `SHADER_READ_ONLY`
/// image was last sampled by a fragment shader (the write-after-read source), so the first write
/// waits on that read. Any other entry layout has no prior in-frame work to wait on.
pub fn seed_image_state(r: &mut RgResourceState)
    ensures
        old(r).layout == LAYOUT_SHADER_READ_ONLY_OPTIMAL ==> final(r).last_stage
            == STAGE_FRAGMENT_SHADER && final(r).last_access == ACCESS_SHADER_SAMPLED_READ,
        old(r).layout != LAYOUT_SHADER_READ_ONLY_OPTIMAL ==> final(r).last_stage
            == STAGE_TOP_OF_PIPE && final(r).last_access == ACCESS_NONE,
        final(r)@ == (RgResourceView {
            last_stage: final(r).last_stage,
            last_access: final(r).last_access,
            ..old(r)@
        }),
{
    if r.layout == LAYOUT_SHADER_READ_ONLY_OPTIMAL {
        r.last_stage = STAGE_FRAGMENT_SHADER;
        r.last_access = ACCESS_SHADER_SAMPLED_READ;
    } else {
        r.last_stage = STAGE_TOP_OF_PIPE;
        r.last_access = ACCESS_NONE;
    }
}

/// The source scope of a same-queue barrier, expressed in terms `queue` can name: on the
/// async-compute queue a scope that names a graphics-only stage widens to `ALL_COMMANDS` with
/// `MEMORY_READ | MEMORY_WRITE`, a superset that every queue can express.
pub open spec fn spec_queue_source_scope(stage: u64, access: u64, queue: RgQueueAssignment) -> (
    u64,
    u64,
) {
    if queue == RgQueueAssignment::AsyncCompute && (stage & GRAPHICS_ONLY_STAGES) != 0 {
        (STAGE_ALL_COMMANDS, ACCESS_MEMORY_READ | ACCESS_MEMORY_WRITE)
    } else {
        (stage, access)
    }
}

/// The source scope of a same-queue barrier, expressed in terms `queue` can name.
pub fn queue_source_scope(stage: u64, access: u64, queue: RgQueueAssignment) -> (r: (u64, u64))
    ensures
        r == spec_queue_source_scope(stage, access, queue),
{
    if queue == RgQueueAssignment::AsyncCompute && (stage & GRAPHICS_ONLY_STAGES) != 0 {
        (STAGE_ALL_COMMANDS, ACCESS_MEMORY_READ | ACCESS_MEMORY_WRITE)
    } else {
        (stage, access)
    }
}

/// What a queue-ownership release carries to its source queue.
#[derive(Clone, Copy, Debug, PartialEq, Eq)]
pub enum RgQueueReleaseBarrier {
    /// An image ownership release.
    Image(RgImageBarrier),
    /// A buffer-range ownership release.
    Buffer(RgBufferBarrier),
    /// Same family, different queue: no barrier, only the submission dependency.
    Dependency,
}

/// A queue change a pass's access causes: the source pass (or `None` when the source is the
/// previous frame) and what must run on the source queue.
#[derive(Clone, Copy, Debug, PartialEq, Eq)]
pub struct RgQueueRelease {
    /// The pass of this graph that last used the resource, if any.
    pub pass: Option<usize>,
    /// The family that owned the resource.
    pub source_family: u32,
    /// The queue identity that last used the resource.
    pub source_queue: RgQueueAssignment,
    /// The release barrier (or none).
    pub barrier: RgQueueReleaseBarrier,
}

/// The barriers a single pass needs, derived from its declared usage.
pub struct DerivedBarriers {
    /// Image barriers recorded before the pass.
    pub image: Vec<RgImageBarrier>,
    /// Buffer barriers recorded before the pass.
    pub buffer: Vec<RgBufferBarrier>,
    /// Queue changes whose release halves run on the source queue.
    pub releases: Vec<RgQueueRelease>,
}

impl Default for DerivedBarriers {
    /// No barriers and no releases.
    fn default() -> (r: Self)
        ensures
            r.image@.len() == 0,
            r.buffer@.len() == 0,
            r.releases@.len() == 0,
    {
        DerivedBarriers { image: Vec::new(), buffer: Vec::new(), releases: Vec::new() }
    }
}

impl DerivedBarriers {

    /// Whether no image or buffer barrier was derived.
    pub fn is_empty(&self) -> (r: bool)
        ensures
            r == (self.image@.len() == 0 && self.buffer@.len() == 0),
    {
        self.image.len() == 0 && self.buffer.len() == 0
    }
}

// ---------------------------------------------------------------------------------------------
// Image accesses.

/// The hazard rule: a write touching an already-touched image (write-after-anything), or a read
/// following a write (read-after-write).
pub open spec fn spec_image_hazard(r: RgResourceView, target: RgUsageInfo) -> bool {
    (target.is_write && r.touched) || (!target.is_write && r.last_was_write)
}

/// The access needs a layout the image is not in.
pub open spec fn spec_layout_change(r: RgResourceView, target: RgUsageInfo) -> bool {
    target.layout != LAYOUT_UNDEFINED && r.layout != target.layout
}

/// The image was last used on another queue.
pub open spec fn spec_image_queue_change(r: RgResourceView, queue: RgQueueAssignment) -> bool {
    r.queue is Some && r.queue.unwrap() != queue
}

/// The image was last owned by another queue family: ownership must be released and acquired.
pub open spec fn spec_image_ownership_transfer(
    r: RgResourceView,
    queue: RgQueueAssignment,
    queue_family: u32,
) -> bool {
    spec_image_queue_change(r, queue) && r.queue_family is Some && r.queue_family.unwrap()
        != queue_family
}

/// The layout after the access.
pub open spec fn spec_new_layout(r: RgResourceView, target: RgUsageInfo) -> i32 {
    if spec_layout_change(r, target) {
        target.layout
    } else {
        r.layout
    }
}

/// Every mip level and array layer of the image's aspect.
pub open spec fn spec_full_range(r: RgResourceView) -> RgSubresourceRange {
    RgSubresourceRange {
        aspect_mask: r.aspect,
        base_mip_level: 0,
        level_count: REMAINING_MIP_LEVELS,
        base_array_layer: 0,
        layer_count: REMAINING_ARRAY_LAYERS,
    }
}

/// The release a queue change of an image produces.
pub open spec fn spec_image_release(
    r: RgResourceView,
    target: RgUsageInfo,
    queue: RgQueueAssignment,
    queue_family: u32,
) -> RgQueueRelease {
    RgQueueRelease {
        pass: r.last_pass,
        source_family: r.queue_family.unwrap(),
        source_queue: r.queue.unwrap(),
        barrier: if spec_image_ownership_transfer(r, queue, queue_family) {
            RgQueueReleaseBarrier::Image(
                RgImageBarrier {
                    src_stage_mask: r.last_stage,
                    src_access_mask: r.last_access,
                    dst_stage_mask: STAGE_NONE,
                    dst_access_mask: ACCESS_NONE,
                    old_layout: r.layout,
                    new_layout: spec_new_layout(r, target),
                    src_queue_family_index: r.queue_family.unwrap(),
                    dst_queue_family_index: queue_family,
                    image: r.image,
                    subresource_range: spec_full_range(r),
                },
            )
        } else {
            RgQueueReleaseBarrier::Dependency
        },
    }
}

/// The image barriers an access derives: on a queue change, the acquire half (when ownership
/// moves, the layout changes or there is a hazard); on the same queue, one barrier on a layout
/// change or a hazard, its source scope widened to what the queue can name.
pub open spec fn spec_image_barriers(
    r: RgResourceView,
    target: RgUsageInfo,
    queue: RgQueueAssignment,
    queue_family: u32,
) -> Seq<RgImageBarrier> {
    let hazard = spec_image_hazard(r, target);
    let layout_change = spec_layout_change(r, target);
    let transfer = spec_image_ownership_transfer(r, queue, queue_family);
    if spec_image_queue_change(r, queue) {
        if transfer || layout_change || hazard {
            seq![
                RgImageBarrier {
                    src_stage_mask: STAGE_NONE,
                    src_access_mask: ACCESS_NONE,
                    dst_stage_mask: target.stage,
                    dst_access_mask: target.access,
                    old_layout: r.layout,
                    new_layout: spec_new_layout(r, target),
                    src_queue_family_index: if transfer {
                        r.queue_family.unwrap()
                    } else {
                        QUEUE_FAMILY_IGNORED
                    },
                    dst_queue_family_index: if transfer {
                        queue_family
                    } else {
                        QUEUE_FAMILY_IGNORED
                    },
                    image: r.image,
                    subresource_range: spec_full_range(r),
                },
            ]
        } else {
            Seq::empty()
        }
    } else if layout_change || hazard {
        let scope = spec_queue_source_scope(r.last_stage, r.last_access, queue);
        seq![
            RgImageBarrier {
                src_stage_mask: scope.0,
                src_access_mask: scope.1,
                dst_stage_mask: target.stage,
                dst_access_mask: target.access,
                old_layout: r.layout,
                new_layout: spec_new_layout(r, target),
                src_queue_family_index: QUEUE_FAMILY_IGNORED,
                dst_queue_family_index: QUEUE_FAMILY_IGNORED,
                image: r.image,
                subresource_range: spec_full_range(r),
            },
        ]
    } else {
        Seq::empty()
    }
}

/// The releases an image access derives: one exactly when the queue changes.
pub open spec fn spec_image_releases(
    r: RgResourceView,
    target: RgUsageInfo,
    queue: RgQueueAssignment,
    queue_family: u32,
) -> Seq<RgQueueRelease> {
    if spec_image_queue_change(r, queue) {
        seq![spec_image_release(r, target, queue, queue_family)]
    } else {
        Seq::empty()
    }
}

/// The image state after the access: the new layout and the access's scope, owned by `queue`'s
/// family and last used by `pass`.
pub open spec fn spec_image_after(
    r: RgResourceView,
    target: RgUsageInfo,
    pass: usize,
    queue: RgQueueAssignment,
    queue_family: u32,
) -> RgResourceView {
    RgResourceView {
        layout: spec_new_layout(r, target),
        last_stage: target.stage,
        last_access: target.access,
        last_was_write: target.is_write,
        touched: true,
        queue_family: Some(queue_family),
        queue: Some(queue),
        last_pass: Some(pass),
        ..r
    }
}

/// A queue identity always comes with the family that owns the resource.
pub open spec fn spec_owner_consistent(r: RgResourceView) -> bool {
    r.queue is Some ==> r.queue_family is Some
}

fn apply_image_access(
    r: &mut RgResourceState,
    target: RgUsageInfo,
    pass: usize,
    queue: RgQueueAssignment,
    queue_family: u32,
    barriers: &mut DerivedBarriers,
)
    requires
        old(r).is_image,
        spec_owner_consistent(old(r)@),
    ensures
        final(r)@ == spec_image_after(old(r)@, target, pass, queue, queue_family),
        final(barriers).image@ == old(barriers).image@ + spec_image_barriers(
            old(r)@,
            target,
            queue,
            queue_family,
        ),
        final(barriers).buffer@ == old(barriers).buffer@,
        final(barriers).releases@ == old(barriers).releases@ + spec_image_releases(
            old(r)@,
            target,
            queue,
            queue_family,
        ),
{
    let ghost r0 = r@;
    let hazard = (target.is_write && r.touched) || (!target.is_write && r.last_was_write);
    let layout_change = target.layout != LAYOUT_UNDEFINED && r.layout != target.layout;
    let queue_change = match r.queue {
        Some(previous) => previous != queue,
        None => false,
    };
    let ownership_transfer = queue_change && match r.queue_family {
        Some(family) => family != queue_family,
        None => false,
    };
    let new_layout = if layout_change {
        target.layout
    } else {
        r.layout
    };
    let subresource_range = RgSubresourceRange {
        aspect_mask: r.aspect,
        base_mip_level: 0,
        level_count: REMAINING_MIP_LEVELS,
        base_array_layer: 0,
        layer_count: REMAINING_ARRAY_LAYERS,
    };
    if queue_change {
        let source_family = match r.queue_family {
            Some(family) => family,
            None => 0,
        };
        let source_queue = match r.queue {
            Some(q) => q,
            None => queue,
        };
        let release_barrier = if ownership_transfer {
            RgQueueReleaseBarrier::Image(
                RgImageBarrier {
                    src_stage_mask: r.last_stage,
                    src_access_mask: r.last_access,
                    dst_stage_mask: STAGE_NONE,
                    dst_access_mask: ACCESS_NONE,
                    old_layout: r.layout,
                    new_layout,
                    src_queue_family_index: source_family,
                    dst_queue_family_index: queue_family,
                    image: r.image,
                    subresource_range,
                },
            )
        } else {
            RgQueueReleaseBarrier::Dependency
        };
        barriers.releases.push(
            RgQueueRelease { pass: r.last_pass, source_family, source_queue, barrier: release_barrier },
        );
        if ownership_transfer || layout_change || hazard {
            barriers.image.push(
                RgImageBarrier {
                    src_stage_mask: STAGE_NONE,
                    src_access_mask: ACCESS_NONE,
                    dst_stage_mask: target.stage,
                    dst_access_mask: target.access,
                    old_layout: r.layout,
                    new_layout,
                    src_queue_family_index: if ownership_transfer {
                        source_family
                    } else {
                        QUEUE_FAMILY_IGNORED
                    },
                    dst_queue_family_index: if ownership_transfer {
                        queue_family
                    } else {
                        QUEUE_FAMILY_IGNORED
                    },
                    image: r.image,
                    subresource_range,
                },
            );
        }
    } else if layout_change || hazard {
        let (src_stage, src_access) = queue_source_scope(r.last_stage, r.last_access, queue);
        barriers.image.push(
            RgImageBarrier {
                src_stage_mask: src_stage,
                src_access_mask: src_access,
                dst_stage_mask: target.stage,
                dst_access_mask: target.access,
                old_layout: r.layout,
                new_layout,
                src_queue_family_index: QUEUE_FAMILY_IGNORED,
                dst_queue_family_index: QUEUE_FAMILY_IGNORED,
                image: r.image,
                subresource_range,
            },
        );
    }
    if layout_change {
        r.layout = target.layout;
    }
    r.last_stage = target.stage;
    r.last_access = target.access;
    r.last_was_write = target.is_write;
    r.touched = true;
    r.queue_family = Some(queue_family);
    r.queue = Some(queue);
    r.last_pass = Some(pass);
    assert(barriers.image@ =~= old(barriers).image@ + spec_image_barriers(
        r0,
        target,
        queue,
        queue_family,
    ));
    assert(barriers.releases@ =~= old(barriers).releases@ + spec_image_releases(
        r0,
        target,
        queue,
        queue_family,
    ));
}

// ---------------------------------------------------------------------------------------------
// Buffer accesses.

/// The larger of two offsets.
pub open spec fn spec_max(a: u64, b: u64) -> u64 {
    if a >= b {
        a
    } else {
        b
    }
}

/// The smaller of two offsets.
pub open spec fn spec_min(a: u64, b: u64) -> u64 {
    if a <= b {
        a
    } else {
        b
    }
}

/// The first byte `p` and `[start, end)` share.
pub open spec fn spec_overlap_start(p: RgBufferAccessState, start: u64) -> u64 {
    spec_max(p.start, start)
}

/// One past the last byte `p` and `[start, end)` share.
pub open spec fn spec_overlap_end(p: RgBufferAccessState, end: u64) -> u64 {
    spec_min(p.end, end)
}

/// Whether `p` shares a byte with `[start, end)`.
pub open spec fn spec_overlaps(p: RgBufferAccessState, start: u64, end: u64) -> bool {
    spec_overlap_start(p, start) < spec_overlap_end(p, end)
}

/// What remains of a tracked range once `[start, end)` is taken out of it: the whole range when
/// they do not overlap, else the pieces before and after the overlap.
pub open spec fn spec_split_retained(p: RgBufferAccessState, start: u64, end: u64) -> Seq<
    RgBufferAccessState,
> {
    if !spec_overlaps(p, start, end) {
        seq![p]
    } else {
        let os = spec_overlap_start(p, start);
        let oe = spec_overlap_end(p, end);
        (if p.start < os {
            seq![RgBufferAccessState { end: os, ..p }]
        } else {
            Seq::empty()
        }) + (if oe < p.end {
            seq![RgBufferAccessState { start: oe, ..p }]
        } else {
            Seq::empty()
        })
    }
}

/// The barrier an access derives against one overlapping tracked range: on a queue change the
/// acquire half (when ownership moves or either side writes), on the same queue a plain
/// barrier when either side writes — always exactly over the overlap.
pub open spec fn spec_split_barriers(
    p: RgBufferAccessState,
    start: u64,
    end: u64,
    target: RgUsageInfo,
    queue: RgQueueAssignment,
    queue_family: u32,
    buffer: u64,
) -> Seq<RgBufferBarrier> {
    let os = spec_overlap_start(p, start);
    let oe = spec_overlap_end(p, end);
    let queue_change = p.queue != queue;
    let transfer = queue_change && p.queue_family != queue_family;
    let hazard = p.is_write || target.is_write;
    if !spec_overlaps(p, start, end) {
        Seq::empty()
    } else if queue_change {
        if transfer || hazard {
            seq![
                RgBufferBarrier {
                    src_stage_mask: STAGE_NONE,
                    src_access_mask: ACCESS_NONE,
                    dst_stage_mask: target.stage,
                    dst_access_mask: target.access,
                    src_queue_family_index: if transfer {
                        p.queue_family
                    } else {
                        QUEUE_FAMILY_IGNORED
                    },
                    dst_queue_family_index: if transfer {
                        queue_family
                    } else {
                        QUEUE_FAMILY_IGNORED
                    },
                    buffer,
                    offset: os,
                    size: (oe - os) as u64,
                },
            ]
        } else {
            Seq::empty()
        }
    } else if hazard {
        seq![
            RgBufferBarrier {
                src_stage_mask: p.stage,
                src_access_mask: p.access,
                dst_stage_mask: target.stage,
                dst_access_mask: target.access,
                src_queue_family_index: QUEUE_FAMILY_IGNORED,
                dst_queue_family_index: QUEUE_FAMILY_IGNORED,
                buffer,
                offset: os,
                size: (oe - os) as u64,
            },
        ]
    } else {
        Seq::empty()
    }
}

/// The release an access derives against one overlapping tracked range last used on another
/// queue: an ownership-release barrier over the overlap when the family differs, else only the
/// submission dependency.
pub open spec fn spec_split_releases(
    p: RgBufferAccessState,
    start: u64,
    end: u64,
    queue: RgQueueAssignment,
    queue_family: u32,
    buffer: u64,
) -> Seq<RgQueueRelease> {
    let os = spec_overlap_start(p, start);
    let oe = spec_overlap_end(p, end);
    if spec_overlaps(p, start, end) && p.queue != queue {
        seq![
            RgQueueRelease {
                pass: p.last_pass,
                source_family: p.queue_family,
                source_queue: p.queue,
                barrier: if p.queue_family != queue_family {
                    RgQueueReleaseBarrier::Buffer(
                        RgBufferBarrier {
                            src_stage_mask: p.stage,
                            src_access_mask: p.access,
                            dst_stage_mask: STAGE_NONE,
                            dst_access_mask: ACCESS_NONE,
                            src_queue_family_index: p.queue_family,
                            dst_queue_family_index: queue_family,
                            buffer,
                            offset: os,
                            size: (oe - os) as u64,
                        },
                    )
                } else {
                    RgQueueReleaseBarrier::Dependency
                },
            },
        ]
    } else {
        Seq::empty()
    }
}

/// A read that follows an overlapping read on the same queue keeps that read's scope, so a later
/// write waits on both.
pub open spec fn spec_split_inherits(
    p: RgBufferAccessState,
    start: u64,
    end: u64,
    target: RgUsageInfo,
    queue: RgQueueAssignment,
) -> bool {
    spec_overlaps(p, start, end) && !target.is_write && !p.is_write && p.queue == queue
}

/// The retained pieces of every tracked range, in order.
pub open spec fn spec_scan_retained(prev: Seq<RgBufferAccessState>, start: u64, end: u64) -> Seq<
    RgBufferAccessState,
>
    decreases prev.len(),
{
    if prev.len() == 0 {
        Seq::empty()
    } else {
        spec_scan_retained(prev.drop_last(), start, end) + spec_split_retained(
            prev.last(),
            start,
            end,
        )
    }
}

/// The barriers against every tracked range, in order.
pub open spec fn spec_scan_barriers(
    prev: Seq<RgBufferAccessState>,
    start: u64,
    end: u64,
    target: RgUsageInfo,
    queue: RgQueueAssignment,
    queue_family: u32,
    buffer: u64,
) -> Seq<RgBufferBarrier>
    decreases prev.len(),
{
    if prev.len() == 0 {
        Seq::empty()
    } else {
        spec_scan_barriers(prev.drop_last(), start, end, target, queue, queue_family, buffer)
            + spec_split_barriers(prev.last(), start, end, target, queue, queue_family, buffer)
    }
}

/// The releases against every tracked range, in order.
pub open spec fn spec_scan_releases(
    prev: Seq<RgBufferAccessState>,
    start: u64,
    end: u64,
    queue: RgQueueAssignment,
    queue_family: u32,
    buffer: u64,
) -> Seq<RgQueueRelease>
    decreases prev.len(),
{
    if prev.len() == 0 {
        Seq::empty()
    } else {
        spec_scan_releases(prev.drop_last(), start, end, queue, queue_family, buffer)
            + spec_split_releases(prev.last(), start, end, queue, queue_family, buffer)
    }
}

/// The access's stages joined with those of every read it inherits.
pub open spec fn spec_scan_stage(
    prev: Seq<RgBufferAccessState>,
    start: u64,
    end: u64,
    target: RgUsageInfo,
    queue: RgQueueAssignment,
) -> u64
    decreases prev.len(),
{
    if prev.len() == 0 {
        target.stage
    } else {
        let s = spec_scan_stage(prev.drop_last(), start, end, target, queue);
        if spec_split_inherits(prev.last(), start, end, target, queue) {
            s | prev.last().stage
        } else {
            s
        }
    }
}

/// The access's access kinds joined with those of every read it inherits.
pub open spec fn spec_scan_access(
    prev: Seq<RgBufferAccessState>,
    start: u64,
    end: u64,
    target: RgUsageInfo,
    queue: RgQueueAssignment,
) -> u64
    decreases prev.len(),
{
    if prev.len() == 0 {
        target.access
    } else {
        let s = spec_scan_access(prev.drop_last(), start, end, target, queue);
        if spec_split_inherits(prev.last(), start, end, target, queue) {
            s | prev.last().access
        } else {
            s
        }
    }
}

/// The tracked range the access itself leaves behind.
pub open spec fn spec_new_buffer_access(
    prev: Seq<RgBufferAccessState>,
    start: u64,
    end: u64,
    target: RgUsageInfo,
    pass: usize,
    queue: RgQueueAssignment,
    queue_family: u32,
) -> RgBufferAccessState {
    RgBufferAccessState {
        start,
        end,
        stage: spec_scan_stage(prev, start, end, target, queue),
        access: spec_scan_access(prev, start, end, target, queue),
        is_write: target.is_write,
        queue_family,
        queue,
        last_pass: Some(pass),
    }
}

/// A declared range fits the buffer: it is well formed and, when the buffer's size is known,
/// ends inside it.
pub open spec fn spec_range_fits(buffer_size: u64, range: Option<RgBufferRange>) -> bool {
    match range {
        Some(range) => range.wf() && (buffer_size == WHOLE_SIZE || range.offset + range.size
            <= buffer_size),
        None => true,
    }
}

/// The `[start, end)` bytes a declared range covers: the range itself, or the whole buffer.
pub open spec fn spec_range_bounds(buffer_size: u64, range: Option<RgBufferRange>) -> (u64, u64) {
    match range {
        Some(range) => (range.offset, (range.offset + range.size) as u64),
        None => (0, buffer_size),
    }
}

/// The `[start, end)` bytes a declared range covers: the range itself, or the whole buffer.
pub fn buffer_range_bounds(buffer_size: u64, range: Option<RgBufferRange>) -> (r: (u64, u64))
    requires
        spec_range_fits(buffer_size, range),
    ensures
        r == spec_range_bounds(buffer_size, range),
{
    match range {
        Some(range) => (range.offset, range.offset + range.size),
        None => (0, buffer_size),
    }
}

fn apply_buffer_access(
    r: &mut RgResourceState,
    target: RgUsageInfo,
    range: Option<RgBufferRange>,
    pass: usize,
    queue: RgQueueAssignment,
    queue_family: u32,
    barriers: &mut DerivedBarriers,
)
    requires
        !old(r).is_image,
        spec_range_fits(old(r).buffer_size, range),
    ensures
        final(r)@ == spec_access_after(old(r)@, target, range, pass, queue, queue_family),
        final(barriers).image@ == old(barriers).image@,
        final(barriers).buffer@ == old(barriers).buffer@ + spec_access_buffer_barriers(
            old(r)@,
            target,
            range,
            queue,
            queue_family,
        ),
        final(barriers).releases@ == old(barriers).releases@ + spec_access_releases(
            old(r)@,
            target,
            range,
            queue,
            queue_family,
        ),
{
    let (start, end) = buffer_range_bounds(r.buffer_size, range);
    let ghost prev = r.buffer_accesses@;
    let n = r.buffer_accesses.len();
    let mut retained: Vec<RgBufferAccessState> = Vec::new();
    let mut inherited_stage = target.stage;
    let mut inherited_access = target.access;
    let mut i: usize = 0;
    while i < n
        invariant
            i <= n,
            n == prev.len(),
            r.buffer_accesses@ == prev,
            *r == *old(r),
            retained@ == spec_scan_retained(prev.take(i as int), start, end),
            barriers.buffer@ == old(barriers).buffer@ + spec_scan_barriers(
                prev.take(i as int),
                start,
                end,
                target,
                queue,
                queue_family,
                r.buffer,
            ),
            barriers.releases@ == old(barriers).releases@ + spec_scan_releases(
                prev.take(i as int),
                start,
                end,
                queue,
                queue_family,
                r.buffer,
            ),
            barriers.image@ == old(barriers).image@,
            inherited_stage == spec_scan_stage(prev.take(i as int), start, end, target, queue),
            inherited_access == spec_scan_access(prev.take(i as int), start, end, target, queue),
        decreases n - i,
    {
        let previous = r.buffer_accesses[i];
        let ghost pre_t = prev.take(i as int);
        assert(prev.take(i as int + 1).drop_last() =~= pre_t);
        assert(prev.take(i as int + 1).last() == previous);
        let overlap_start = if previous.start >= start {
            previous.start
        } else {
            start
        };
        let overlap_end = if previous.end <= end {
            previous.end
        } else {
            end
        };
        if overlap_start >= overlap_end {
            retained.push(previous);
        } else {
            if previous.start < overlap_start {
                retained.push(RgBufferAccessState { end: overlap_start, ..previous });
            }
            if overlap_end < previous.end {
                retained.push(RgBufferAccessState { start: overlap_end, ..previous });
            }
            let queue_change = previous.queue != queue;
            let ownership_transfer = queue_change && previous.queue_family != queue_family;
            let hazard = previous.is_write || target.is_write;
            let barrier_offset = overlap_start;
            let barrier_size = overlap_end - overlap_start;
            if queue_change {
                let release_barrier = if ownership_transfer {
                    RgQueueReleaseBarrier::Buffer(
                        RgBufferBarrier {
                            src_stage_mask: previous.stage,
                            src_access_mask: previous.access,
                            dst_stage_mask: STAGE_NONE,
                            dst_access_mask: ACCESS_NONE,
                            src_queue_family_index: previous.queue_family,
                            dst_queue_family_index: queue_family,
                            buffer: r.buffer,
                            offset: barrier_offset,
                            size: barrier_size,
                        },
                    )
                } else {
                    RgQueueReleaseBarrier::Dependency
                };
                barriers.releases.push(
                    RgQueueRelease {
                        pass: previous.last_pass,
                        source_family: previous.queue_family,
                        source_queue: previous.queue,
                        barrier: release_barrier,
                    },
                );
                if ownership_transfer || hazard {
                    barriers.buffer.push(
                        RgBufferBarrier {
                            src_stage_mask: STAGE_NONE,
                            src_access_mask: ACCESS_NONE,
                            dst_stage_mask: target.stage,
                            dst_access_mask: target.access,
                            src_queue_family_index: if ownership_transfer {
                                previous.queue_family
                            } else {
                                QUEUE_FAMILY_IGNORED
                            },
                            dst_queue_family_index: if ownership_transfer {
                                queue_family
                            } else {
                                QUEUE_FAMILY_IGNORED
                            },
                            buffer: r.buffer,
                            offset: barrier_offset,
                            size: barrier_size,
                        },
                    );
                }
            } else if hazard {
                barriers.buffer.push(
                    RgBufferBarrier {
                        src_stage_mask: previous.stage,
                        src_access_mask: previous.access,
                        dst_stage_mask: target.stage,
                        dst_access_mask: target.access,
                        src_queue_family_index: QUEUE_FAMILY_IGNORED,
                        dst_queue_family_index: QUEUE_FAMILY_IGNORED,
                        buffer: r.buffer,
                        offset: barrier_offset,
                        size: barrier_size,
                    },
                );
            }
            if !target.is_write && !previous.is_write && !queue_change {
                inherited_stage = inherited_stage | previous.stage;
                inherited_access = inherited_access | previous.access;
            }
        }
        proof {
            let split = spec_split_retained(previous, start, end);
            assert(retained@ =~= spec_scan_retained(pre_t, start, end) + split);
            assert(barriers.buffer@ =~= old(barriers).buffer@ + spec_scan_barriers(
                pre_t,
                start,
                end,
                target,
                queue,
                queue_family,
                r.buffer,
            ) + spec_split_barriers(previous, start, end, target, queue, queue_family, r.buffer));
            assert(barriers.releases@ =~= old(barriers).releases@ + spec_scan_releases(
                pre_t,
                start,
                end,
                queue,
                queue_family,
                r.buffer,
            ) + spec_split_releases(previous, start, end, queue, queue_family, r.buffer));
        }
        i = i + 1;
    }
    assert(prev.take(n as int) =~= prev);
    retained.push(
        RgBufferAccessState {
            start,
            end,
            stage: inherited_stage,
            access: inherited_access,
            is_write: target.is_write,
            queue_family,
            queue,
            last_pass: Some(pass),
        },
    );
    r.buffer_accesses = retained;
    r.last_stage = target.stage;
    r.last_access = target.access;
    r.last_was_write = target.is_write;
    r.touched = true;
    assert(r@.buffer_accesses =~= spec_access_after(
        old(r)@,
        target,
        range,
        pass,
        queue,
        queue_family,
    ).buffer_accesses);
}

/// Derives the barriers for one `(resource, usage)`, appends them to `barriers`, and advances
/// the resource state. Images barrier on a layout change or a hazard (a write after any touch,
/// a read after a write); buffers barrier, per overlapping tracked byte range, on a hazard (either
/// side writes). A change of queue adds a release for the source queue.
pub fn apply_access_queued(
    r: &mut RgResourceState,
    target: RgUsageInfo,
    range: Option<RgBufferRange>,
    pass: usize,
    queue: RgQueueAssignment,
    queue_family: u32,
    barriers: &mut DerivedBarriers,
)
    requires
        spec_access_allowed(old(r)@, range),
    ensures
        final(r)@ == spec_access_after(old(r)@, target, range, pass, queue, queue_family),
        final(barriers).image@ == old(barriers).image@ + spec_access_image_barriers(
            old(r)@,
            target,
            queue,
            queue_family,
        ),
        final(barriers).buffer@ == old(barriers).buffer@ + spec_access_buffer_barriers(
            old(r)@,
            target,
            range,
            queue,
            queue_family,
        ),
        final(barriers).releases@ == old(barriers).releases@ + spec_access_releases(
            old(r)@,
            target,
            range,
            queue,
            queue_family,
        ),
{
    if !r.is_image {
        apply_buffer_access(r, target, range, pass, queue, queue_family, barriers);
        return ;
    }
    apply_image_access(r, target, pass, queue, queue_family, barriers);
}

/// An access the derivation accepts: an image whose queue identity comes with its owning
/// family, or a buffer access whose declared range fits the buffer.
pub open spec fn spec_access_allowed(r: RgResourceView, range: Option<RgBufferRange>) -> bool {
    if r.is_image {
        spec_owner_consistent(r)
    } else {
        spec_range_fits(r.buffer_size, range)
    }
}

/// The resource state an access leaves behind (see [`apply_access_queued`]): for an image the
/// new layout and scope under the new owner; for a buffer the retained pieces of every other
/// tracked range followed by the accessed range itself.
pub open spec fn spec_access_after(
    r: RgResourceView,
    target: RgUsageInfo,
    range: Option<RgBufferRange>,
    pass: usize,
    queue: RgQueueAssignment,
    queue_family: u32,
) -> RgResourceView {
    if r.is_image {
        spec_image_after(r, target, pass, queue, queue_family)
    } else {
        let (start, end) = spec_range_bounds(r.buffer_size, range);
        let prev = r.buffer_accesses;
        RgResourceView {
            buffer_accesses: spec_scan_retained(prev, start, end).push(
                spec_new_buffer_access(prev, start, end, target, pass, queue, queue_family),
            ),
            last_stage: target.stage,
            last_access: target.access,
            last_was_write: target.is_write,
            touched: true,
            ..r
        }
    }
}

/// The image barriers an access derives.
pub open spec fn spec_access_image_barriers(
    r: RgResourceView,
    target: RgUsageInfo,
    queue: RgQueueAssignment,
    queue_family: u32,
) -> Seq<RgImageBarrier> {
    if r.is_image {
        spec_image_barriers(r, target, queue, queue_family)
    } else {
        Seq::empty()
    }
}

/// The buffer barriers an access derives.
pub open spec fn spec_access_buffer_barriers(
    r: RgResourceView,
    target: RgUsageInfo,
    range: Option<RgBufferRange>,
    queue: RgQueueAssignment,
    queue_family: u32,
) -> Seq<RgBufferBarrier> {
    if r.is_image {
        Seq::empty()
    } else {
        let (start, end) = spec_range_bounds(r.buffer_size, range);
        spec_scan_barriers(r.buffer_accesses, start, end, target, queue, queue_family, r.buffer)
    }
}

/// The queue releases an access derives.
pub open spec fn spec_access_releases(
    r: RgResourceView,
    target: RgUsageInfo,
    range: Option<RgBufferRange>,
    queue: RgQueueAssignment,
    queue_family: u32,
) -> Seq<RgQueueRelease> {
    if r.is_image {
        spec_image_releases(r, target, queue, queue_family)
    } else {
        let (start, end) = spec_range_bounds(r.buffer_size, range);
        spec_scan_releases(r.buffer_accesses, start, end, queue, queue_family, r.buffer)
    }
}

// ---------------------------------------------------------------------------------------------
// Byte-range coverage.

/// Byte `x` lies in one of the `[start, end)` spans.
pub open spec fn spec_span_covers_byte(spans: Seq<(u64, u64)>, x: int) -> bool {
    exists|i: int| 0 <= i < spans.len() && #[trigger] spans[i].0 <= x && x < spans[i].1
}

/// The non-empty range `[start, end)` lies entirely within the union of `spans`.
pub open spec fn spec_spans_cover(spans: Seq<(u64, u64)>, start: u64, end: u64) -> bool {
    start < end && forall|x: int| start <= x < end ==> spec_span_covers_byte(spans, x)
}

/// Whether the non-empty range `[start, end)` lies within the union of `spans`: a sweep that
/// advances a cursor past every span containing it until the cursor reaches `end` (covered) or
/// no span contains it (a gap).
pub fn spans_cover(spans: &Vec<(u64, u64)>, start: u64, end: u64) -> (r: bool)
    ensures
        r == spec_spans_cover(spans@, start, end),
{
    if start >= end {
        return false;
    }
    let mut cursor = start;
    while cursor < end
        invariant
            start <= cursor,
            start < end,
            forall|x: int| start <= x < cursor ==> spec_span_covers_byte(spans@, x),
        decreases u64::MAX - cursor,
    {
        let mut j: usize = 0;
        let mut next: Option<u64> = None;
        while j < spans.len()
            invariant
                j <= spans.len(),
                next is None ==> forall|k: int|
                    0 <= k < j ==> !(#[trigger] spans@[k].0 <= cursor && cursor < spans@[k].1),
                next matches Some(e) ==> e > cursor && forall|x: int|
                    cursor <= x < e ==> spec_span_covers_byte(spans@, x),
            decreases spans.len() - j,
        {
            if next.is_none() {
                let (span_start, span_end) = spans[j];
                if span_start <= cursor && cursor < span_end {
                    proof {
                        assert forall|x: int| cursor <= x < span_end implies spec_span_covers_byte(
                            spans@,
                            x,
                        ) by {
                            assert(spans@[j as int].0 <= x && x < spans@[j as int].1);
                        }
                    }
                    next = Some(span_end);
                }
            }
            j = j + 1;
        }
        match next {
            None => {
                assert(!spec_span_covers_byte(spans@, cursor as int));
                return false;
            },
            Some(e) => {
                cursor = e;
            },
        }
    }
    true
}

/// The `[start, end)` spans of tracked byte-range states.
pub open spec fn spec_access_spans(accesses: Seq<RgBufferAccessState>) -> Seq<(u64, u64)> {
    accesses.map_values(|a: RgBufferAccessState| (a.start, a.end))
}

/// Whether the tracked state of a buffer already covers every byte of a declared range — a
/// range some earlier owner has established.
pub fn buffer_state_covers(resource: &RgResourceState, range: Option<RgBufferRange>) -> (r: bool)
    requires
        spec_range_fits(resource.buffer_size, range),
    ensures
        ({
            let (start, end) = spec_range_bounds(resource.buffer_size, range);
            r == spec_spans_cover(spec_access_spans(resource.buffer_accesses@), start, end)
        }),
{
    let (start, end) = buffer_range_bounds(resource.buffer_size, range);
    let mut spans: Vec<(u64, u64)> = Vec::new();
    let mut i: usize = 0;
    while i < resource.buffer_accesses.len()
        invariant
            i <= resource.buffer_accesses.len(),
            spans@ == spec_access_spans(resource.buffer_accesses@.take(i as int)),
        decreases resource.buffer_accesses.len() - i,
    {
        let a = resource.buffer_accesses[i];
        spans.push((a.start, a.end));
        assert(spans@ =~= spec_access_spans(resource.buffer_accesses@.take(i as int + 1)));
        i = i + 1;
    }
    assert(resource.buffer_accesses@.take(i as int) =~= resource.buffer_accesses@);
    spans_cover(&spans, start, end)
}


/// An image whose owning family changes on an access is handed over in two halves that agree.
/// The release recorded for the source queue and the acquire recorded before the access name
/// the same image and whole subresource range, the same layout transition (from the layout the
/// image is in to the layout the access leaves it in: the access's layout when it names one,
/// else the current one), and the same source and destination families (the image's last family
/// and the access's). A queue change within one family releases with no barrier, and an access
/// on the same queue releases nothing.
pub proof fn lemma_image_transfer_halves_agree(
    r: RgResourceView,
    target: RgUsageInfo,
    range: Option<RgBufferRange>,
    pass: usize,
    queue: RgQueueAssignment,
    queue_family: u32,
)
    requires
        r.is_image,
    ensures
        ({
            let rels = spec_access_releases(r, target, range, queue, queue_family);
            let acqs = spec_access_image_barriers(r, target, queue, queue_family);
            let after = spec_access_after(r, target, range, pass, queue, queue_family);
            &&& after.layout == (if target.layout != LAYOUT_UNDEFINED { target.layout } else { r.layout })
            &&& (r.queue is Some && r.queue.unwrap() != queue && r.queue_family is Some && r.queue_family.unwrap()
                != queue_family) ==> {
                &&& rels.len() == 1
                &&& acqs.len() == 1
                &&& rels[0].barrier matches RgQueueReleaseBarrier::Image(rel) && {
                    &&& rel.image == r.image && acqs[0].image == r.image
                    &&& rel.subresource_range == acqs[0].subresource_range
                    &&& rel.old_layout == r.layout && acqs[0].old_layout == r.layout
                    &&& rel.new_layout == after.layout && acqs[0].new_layout == after.layout
                    &&& rel.src_queue_family_index == r.queue_family.unwrap()
                    &&& acqs[0].src_queue_family_index == r.queue_family.unwrap()
                    &&& rel.dst_queue_family_index == queue_family && acqs[0].dst_queue_family_index == queue_family
                }
            }
            &&& (r.queue is Some && r.queue.unwrap() != queue && r.queue_family == Some(queue_family)) ==> rels.len()
                == 1 && rels[0].barrier is Dependency
            &&& !(r.queue is Some && r.queue.unwrap() != queue) ==> rels.len() == 0
        }),
{
}


/// Every image barrier an access derives moves the whole image from the layout it is in to the
/// layout the access leaves it in, and an access that needs a layout the image is not in always
/// derives one; an access on the queue that last used the image derives at most one barrier,
/// and none when it neither changes the layout nor follows or precedes a write.
pub proof fn lemma_image_barriers_make_the_transition(
    r: RgResourceView,
    target: RgUsageInfo,
    range: Option<RgBufferRange>,
    pass: usize,
    queue: RgQueueAssignment,
    queue_family: u32,
)
    requires
        r.is_image,
    ensures
        ({
            let bars = spec_access_image_barriers(r, target, queue, queue_family);
            let after = spec_access_after(r, target, range, pass, queue, queue_family);
            &&& bars.len() <= 1
            &&& forall|k: int| #![trigger bars[k]] 0 <= k < bars.len() ==> bars[k].old_layout == r.layout
                && bars[k].new_layout == after.layout && bars[k].image == r.image
                && bars[k].dst_stage_mask == target.stage && bars[k].dst_access_mask == target.access
            &&& (target.layout != LAYOUT_UNDEFINED && target.layout != r.layout) ==> bars.len() == 1
            &&& (!(r.queue is Some && r.queue.unwrap() != queue) && (target.layout == LAYOUT_UNDEFINED || target.layout
                == r.layout) && !(target.is_write && r.touched) && !(!target.is_write && r.last_was_write))
                ==> bars.len() == 0
            &&& after.queue == Some(queue) && after.queue_family == Some(queue_family) && after.last_pass == Some(pass)
        }),
{
}

} // verus!

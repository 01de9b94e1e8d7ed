use ash::vk;
use rendering::render_graph::barriers::{
    apply_access_queued, seed_image_state, usage_info, DerivedBarriers, RgQueueReleaseBarrier,
};
use rendering::render_graph::graph::{batch_label, RenderGraph};
use rendering::render_graph::plan::records_pipeline_statistics;
use rendering::render_graph::record::RgBatchCommandBuffers;
use rendering::renderer::Error;
use rendering::render_graph::{
    RgAttachment, RgBufferAccessState, RgBufferLifetime, RgBufferRange, RgBufferRangeError, RgBufferResource,
    RgExtent2D, RgExternalBufferState, RgExternalState, RgPass, RgQueueAssignment, RgQueueFamilies,
    RgQueuePreference, RgResourceState, RgUsage, RgUsageInfo,
};

fn st(flags: vk::PipelineStageFlags2) -> u64 {
    flags.as_raw()
}

fn ac(flags: vk::AccessFlags2) -> u64 {
    flags.as_raw()
}

fn ly(layout: vk::ImageLayout) -> i32 {
    layout.as_raw()
}

fn no_extent() -> RgExtent2D {
    RgExtent2D { width: 0, height: 0 }
}

fn color_aspect() -> u32 {
    vk::ImageAspectFlags::COLOR.as_raw()
}

fn apply_access(resource: &mut RgResourceState, target: RgUsageInfo, barriers: &mut DerivedBarriers) {
    apply_access_queued(resource, target, None, 0, RgQueueAssignment::Graphics, 0, barriers);
}

fn image_state(layout: vk::ImageLayout) -> RgResourceState {
    let mut r = RgResourceState { is_image: true, image: 0, layout: ly(layout), ..RgResourceState::default() };
    seed_image_state(&mut r);
    r
}

fn buffer_state() -> RgResourceState {
    RgResourceState { is_image: false, buffer: 0, ..RgResourceState::default() }
}

fn async_compute(name: &'static str) -> RgPass {
    RgPass::compute(name).queue(RgQueuePreference::AsyncCompute)
}

fn compute_on_graphics(name: &'static str) -> RgPass {
    let mut pass = RgPass::compute(name);
    pass.queue = RgQueuePreference::Graphics;
    pass
}

fn owned_buffer_state(queue: RgQueueAssignment, family: u32) -> RgExternalBufferState {
    RgExternalBufferState {
        accesses: vec![RgBufferAccessState {
            start: 0,
            end: 256,
            stage: st(vk::PipelineStageFlags2::COMPUTE_SHADER),
            access: ac(vk::AccessFlags2::SHADER_STORAGE_READ),
            is_write: false,
            queue_family: family,
            queue,
            last_pass: None,
        }],
    }
}

fn owned_image_state(layout: vk::ImageLayout, queue: RgQueueAssignment, family: u32) -> RgExternalState {
    RgExternalState {
        layout: ly(layout),
        queue_family: Some(family),
        queue: Some(queue),
        stage: st(vk::PipelineStageFlags2::COMPUTE_SHADER),
        access: ac(vk::AccessFlags2::SHADER_SAMPLED_READ),
        was_write: false,
        touched: true,
    }
}

fn clone_pass(pass: &RgPass) -> RgPass {
    RgPass {
        name: pass.name,
        kind: pass.kind,
        queue: pass.queue,
        accesses: pass.accesses.clone(),
        colors: pass.colors.clone(),
        depth: pass.depth,
        render_area: pass.render_area,
    }
}

#[test]
fn pipeline_statistics_are_reserved_only_for_graphics_batches() {
    assert!(records_pipeline_statistics(RgQueueAssignment::Graphics));
    assert!(!records_pipeline_statistics(RgQueueAssignment::AsyncCompute));
}

fn check_usage_info_golden_table() {
    let cases = [
        (
            RgUsage::ColorWrite,
            vk::PipelineStageFlags2::COLOR_ATTACHMENT_OUTPUT,
            vk::AccessFlags2::COLOR_ATTACHMENT_WRITE,
            vk::ImageLayout::COLOR_ATTACHMENT_OPTIMAL,
            true,
        ),
        (
            RgUsage::DepthWrite,
            vk::PipelineStageFlags2::EARLY_FRAGMENT_TESTS | vk::PipelineStageFlags2::LATE_FRAGMENT_TESTS,
            vk::AccessFlags2::DEPTH_STENCIL_ATTACHMENT_WRITE,
            vk::ImageLayout::DEPTH_ATTACHMENT_OPTIMAL,
            true,
        ),
        (
            RgUsage::SampledRead,
            vk::PipelineStageFlags2::FRAGMENT_SHADER,
            vk::AccessFlags2::SHADER_SAMPLED_READ,
            vk::ImageLayout::SHADER_READ_ONLY_OPTIMAL,
            false,
        ),
        (
            RgUsage::StorageWriteCompute,
            vk::PipelineStageFlags2::COMPUTE_SHADER,
            vk::AccessFlags2::SHADER_STORAGE_WRITE,
            vk::ImageLayout::UNDEFINED,
            true,
        ),
        (
            RgUsage::StorageReadCompute,
            vk::PipelineStageFlags2::COMPUTE_SHADER,
            vk::AccessFlags2::SHADER_STORAGE_READ,
            vk::ImageLayout::UNDEFINED,
            false,
        ),
        (
            RgUsage::StorageReadFragment,
            vk::PipelineStageFlags2::FRAGMENT_SHADER,
            vk::AccessFlags2::SHADER_STORAGE_READ,
            vk::ImageLayout::UNDEFINED,
            false,
        ),
        (
            RgUsage::StorageReadWriteCompute,
            vk::PipelineStageFlags2::COMPUTE_SHADER,
            vk::AccessFlags2::SHADER_STORAGE_READ | vk::AccessFlags2::SHADER_STORAGE_WRITE,
            vk::ImageLayout::UNDEFINED,
            true,
        ),
        (
            RgUsage::StorageImageRwCompute,
            vk::PipelineStageFlags2::COMPUTE_SHADER,
            vk::AccessFlags2::SHADER_STORAGE_READ | vk::AccessFlags2::SHADER_STORAGE_WRITE,
            vk::ImageLayout::GENERAL,
            true,
        ),
        (
            RgUsage::SampledReadCompute,
            vk::PipelineStageFlags2::COMPUTE_SHADER,
            vk::AccessFlags2::SHADER_SAMPLED_READ,
            vk::ImageLayout::SHADER_READ_ONLY_OPTIMAL,
            false,
        ),
        (
            RgUsage::TransferRead,
            vk::PipelineStageFlags2::COPY,
            vk::AccessFlags2::TRANSFER_READ,
            vk::ImageLayout::UNDEFINED,
            false,
        ),
        (
            RgUsage::TransferWrite,
            vk::PipelineStageFlags2::COPY,
            vk::AccessFlags2::TRANSFER_WRITE,
            vk::ImageLayout::UNDEFINED,
            true,
        ),
        (
            RgUsage::VertexInputRead,
            vk::PipelineStageFlags2::VERTEX_ATTRIBUTE_INPUT,
            vk::AccessFlags2::VERTEX_ATTRIBUTE_READ,
            vk::ImageLayout::UNDEFINED,
            false,
        ),
        (
            RgUsage::AccelStructBuildRead,
            vk::PipelineStageFlags2::ACCELERATION_STRUCTURE_BUILD_KHR,
            vk::AccessFlags2::SHADER_READ,
            vk::ImageLayout::UNDEFINED,
            false,
        ),
        (
            RgUsage::IndexInputRead,
            vk::PipelineStageFlags2::INDEX_INPUT,
            vk::AccessFlags2::INDEX_READ,
            vk::ImageLayout::UNDEFINED,
            false,
        ),
        (
            RgUsage::ShaderDeviceAddressRead,
            vk::PipelineStageFlags2::ALL_COMMANDS,
            vk::AccessFlags2::SHADER_READ,
            vk::ImageLayout::UNDEFINED,
            false,
        ),
        (
            RgUsage::IndirectCommandRead,
            vk::PipelineStageFlags2::DRAW_INDIRECT,
            vk::AccessFlags2::INDIRECT_COMMAND_READ,
            vk::ImageLayout::UNDEFINED,
            false,
        ),
        (
            RgUsage::IndirectCountRead,
            vk::PipelineStageFlags2::DRAW_INDIRECT,
            vk::AccessFlags2::INDIRECT_COMMAND_READ,
            vk::ImageLayout::UNDEFINED,
            false,
        ),
    ];
    for (usage, stage, access, layout, is_write) in cases {
        let info = usage_info(usage);
        assert_eq!(info.stage, st(stage), "stage for {usage:?}");
        assert_eq!(info.access, ac(access), "access for {usage:?}");
        assert_eq!(info.layout, ly(layout), "layout for {usage:?}");
        assert_eq!(info.is_write, is_write, "is_write for {usage:?}");
    }
}

#[test]
fn tests_usage_info_matches_the_golden_table() {
    check_usage_info_golden_table();
}

#[test]
fn render_graph_usage_info_matches_the_golden_table() {
    check_usage_info_golden_table();
}

fn check_image_barrier_on_layout_change() {
    let mut r = image_state(vk::ImageLayout::UNDEFINED);
    let mut barriers = DerivedBarriers::default();
    apply_access(&mut r, usage_info(RgUsage::SampledRead), &mut barriers);

    assert_eq!(barriers.image.len(), 1);
    assert!(barriers.buffer.is_empty());
    let b = barriers.image[0];
    assert_eq!(b.old_layout, ly(vk::ImageLayout::UNDEFINED));
    assert_eq!(b.new_layout, ly(vk::ImageLayout::SHADER_READ_ONLY_OPTIMAL));
    assert_eq!(b.src_stage_mask, st(vk::PipelineStageFlags2::TOP_OF_PIPE));
    assert_eq!(b.dst_stage_mask, st(vk::PipelineStageFlags2::FRAGMENT_SHADER));
    assert_eq!(b.subresource_range.base_mip_level, 0);
    assert_eq!(b.subresource_range.level_count, vk::REMAINING_MIP_LEVELS);
    assert_eq!(b.subresource_range.base_array_layer, 0);
    assert_eq!(b.subresource_range.layer_count, vk::REMAINING_ARRAY_LAYERS);
    assert_eq!(r.layout, ly(vk::ImageLayout::SHADER_READ_ONLY_OPTIMAL));
}

#[test]
fn tests_image_barrier_on_layout_change() {
    check_image_barrier_on_layout_change();
}

#[test]
fn render_graph_image_barrier_on_layout_change() {
    check_image_barrier_on_layout_change();
}

fn check_image_barrier_on_write_after_touch_hazard() {
    let mut r = image_state(vk::ImageLayout::GENERAL);
    let mut barriers = DerivedBarriers::default();
    apply_access(&mut r, usage_info(RgUsage::StorageImageRwCompute), &mut barriers);
    assert!(barriers.is_empty(), "first write into matching layout needs no barrier");

    apply_access(&mut r, usage_info(RgUsage::StorageImageRwCompute), &mut barriers);
    assert_eq!(barriers.image.len(), 1, "second write is a WAW hazard");
    let b = barriers.image[0];
    assert_eq!(b.old_layout, ly(vk::ImageLayout::GENERAL));
    assert_eq!(b.new_layout, ly(vk::ImageLayout::GENERAL), "no layout change, layout preserved");
}

#[test]
fn tests_image_barrier_on_write_after_touch_hazard() {
    check_image_barrier_on_write_after_touch_hazard();
}

#[test]
fn render_graph_image_barrier_on_write_after_touch_hazard() {
    check_image_barrier_on_write_after_touch_hazard();
}

fn check_image_barrier_on_read_after_write_hazard() {
    let mut r = image_state(vk::ImageLayout::GENERAL);
    let mut barriers = DerivedBarriers::default();
    apply_access(&mut r, usage_info(RgUsage::StorageImageRwCompute), &mut barriers);
    barriers = DerivedBarriers::default();

    apply_access(&mut r, usage_info(RgUsage::SampledReadCompute), &mut barriers);
    assert_eq!(barriers.image.len(), 1, "read after write is a hazard and a layout change");
    let b = barriers.image[0];
    assert_eq!(b.old_layout, ly(vk::ImageLayout::GENERAL));
    assert_eq!(b.new_layout, ly(vk::ImageLayout::SHADER_READ_ONLY_OPTIMAL));
    assert_eq!(
        b.src_access_mask & ac(vk::AccessFlags2::SHADER_STORAGE_WRITE),
        ac(vk::AccessFlags2::SHADER_STORAGE_WRITE)
    );
    assert_eq!(b.dst_access_mask, ac(vk::AccessFlags2::SHADER_SAMPLED_READ));
}

#[test]
fn tests_image_barrier_on_read_after_write_hazard() {
    check_image_barrier_on_read_after_write_hazard();
}

#[test]
fn render_graph_image_barrier_on_read_after_write_hazard() {
    check_image_barrier_on_read_after_write_hazard();
}

fn check_no_image_barrier_on_read_after_read() {
    let mut r = image_state(vk::ImageLayout::SHADER_READ_ONLY_OPTIMAL);
    let mut barriers = DerivedBarriers::default();
    apply_access(&mut r, usage_info(RgUsage::SampledRead), &mut barriers);
    assert!(barriers.is_empty(), "first read needs no barrier (already in layout)");
    apply_access(&mut r, usage_info(RgUsage::SampledRead), &mut barriers);
    assert!(barriers.is_empty(), "read after read emits no barrier");
}

#[test]
fn tests_no_image_barrier_on_read_after_read() {
    check_no_image_barrier_on_read_after_read();
}

#[test]
fn render_graph_no_image_barrier_on_read_after_read() {
    check_no_image_barrier_on_read_after_read();
}

fn check_buffer_memory_barrier_on_hazard_only() {
    let mut r = buffer_state();
    let mut barriers = DerivedBarriers::default();
    apply_access(&mut r, usage_info(RgUsage::StorageWriteCompute), &mut barriers);
    assert!(barriers.is_empty(), "first buffer write is no hazard");

    apply_access(&mut r, usage_info(RgUsage::VertexInputRead), &mut barriers);
    assert_eq!(barriers.buffer.len(), 1, "read after write is a buffer hazard");
    assert!(barriers.image.is_empty(), "buffers never emit image barriers");
    let b = barriers.buffer[0];
    assert_eq!(b.src_stage_mask, st(vk::PipelineStageFlags2::COMPUTE_SHADER));
    assert_eq!(b.src_access_mask, ac(vk::AccessFlags2::SHADER_STORAGE_WRITE));
    assert_eq!(b.dst_stage_mask, st(vk::PipelineStageFlags2::VERTEX_ATTRIBUTE_INPUT));
    assert_eq!(b.dst_access_mask, ac(vk::AccessFlags2::VERTEX_ATTRIBUTE_READ));
}

#[test]
fn tests_buffer_memory_barrier_on_hazard_only() {
    check_buffer_memory_barrier_on_hazard_only();
}

#[test]
fn render_graph_buffer_memory_barrier_on_hazard_only() {
    check_buffer_memory_barrier_on_hazard_only();
}

fn check_index_input_read_after_compute_write() {
    let mut r = buffer_state();
    let mut barriers = DerivedBarriers::default();
    apply_access(&mut r, usage_info(RgUsage::StorageWriteCompute), &mut barriers);
    assert!(barriers.is_empty(), "first buffer write is no hazard");

    apply_access(&mut r, usage_info(RgUsage::IndexInputRead), &mut barriers);
    assert_eq!(barriers.buffer.len(), 1, "index read after write is a hazard");
    assert!(barriers.image.is_empty(), "buffers never emit image barriers");
    let b = barriers.buffer[0];
    assert_eq!(b.src_stage_mask, st(vk::PipelineStageFlags2::COMPUTE_SHADER));
    assert_eq!(b.src_access_mask, ac(vk::AccessFlags2::SHADER_STORAGE_WRITE));
    assert_eq!(b.dst_stage_mask, st(vk::PipelineStageFlags2::INDEX_INPUT));
    assert_eq!(b.dst_access_mask, ac(vk::AccessFlags2::INDEX_READ));
}

#[test]
fn tests_index_input_read_after_compute_write_is_one_memory_barrier() {
    check_index_input_read_after_compute_write();
}

#[test]
fn render_graph_index_input_read_after_compute_write_is_one_memory_barrier() {
    check_index_input_read_after_compute_write();
}

fn check_indirect_command_read_after_compute_write() {
    let mut r = buffer_state();
    let mut barriers = DerivedBarriers::default();
    apply_access(&mut r, usage_info(RgUsage::StorageWriteCompute), &mut barriers);
    assert!(barriers.is_empty(), "first buffer write is no hazard");

    apply_access(&mut r, usage_info(RgUsage::IndirectCommandRead), &mut barriers);
    assert_eq!(barriers.buffer.len(), 1, "indirect-args read after write is a hazard");
    assert!(barriers.image.is_empty(), "buffers never emit image barriers");
    let b = barriers.buffer[0];
    assert_eq!(b.src_stage_mask, st(vk::PipelineStageFlags2::COMPUTE_SHADER));
    assert_eq!(b.src_access_mask, ac(vk::AccessFlags2::SHADER_STORAGE_WRITE));
    assert_eq!(b.dst_stage_mask, st(vk::PipelineStageFlags2::DRAW_INDIRECT));
    assert_eq!(b.dst_access_mask, ac(vk::AccessFlags2::INDIRECT_COMMAND_READ));
}

#[test]
fn tests_indirect_command_read_after_compute_write_is_one_memory_barrier() {
    check_indirect_command_read_after_compute_write();
}

#[test]
fn render_graph_indirect_command_read_after_compute_write_is_one_memory_barrier() {
    check_indirect_command_read_after_compute_write();
}

#[test]
fn indexed_indirect_abi_and_argument_barrier_ranges_are_byte_locked() {
    assert_eq!(std::mem::size_of::<vk::DrawIndexedIndirectCommand>(), 20);
    let command = vk::DrawIndexedIndirectCommand::default();
    let base = std::ptr::from_ref(&command) as usize;
    assert_eq!(std::ptr::from_ref(&command.index_count) as usize - base, 0);
    assert_eq!(std::ptr::from_ref(&command.instance_count) as usize - base, 4);
    assert_eq!(std::ptr::from_ref(&command.first_index) as usize - base, 8);
    assert_eq!(std::ptr::from_ref(&command.vertex_offset) as usize - base, 12);
    assert_eq!(std::ptr::from_ref(&command.first_instance) as usize - base, 16);

    let mut resource = RgResourceState { is_image: false, buffer: 0, buffer_size: 128, ..RgResourceState::default() };
    let mut write = DerivedBarriers::default();
    apply_access_queued(
        &mut resource,
        usage_info(RgUsage::StorageWriteCompute),
        Some(RgBufferRange::new(64, 24).unwrap()),
        0,
        RgQueueAssignment::Graphics,
        0,
        &mut write,
    );
    assert!(write.is_empty());

    let mut arguments = DerivedBarriers::default();
    apply_access_queued(
        &mut resource,
        usage_info(RgUsage::IndirectCommandRead),
        Some(RgBufferRange::new(64, 20).unwrap()),
        1,
        RgQueueAssignment::Graphics,
        0,
        &mut arguments,
    );
    assert_eq!(arguments.buffer.len(), 1);
    assert_eq!(arguments.buffer[0].offset, 64);
    assert_eq!(arguments.buffer[0].size, 20);
    assert_eq!(arguments.buffer[0].dst_stage_mask, st(vk::PipelineStageFlags2::DRAW_INDIRECT));
    assert_eq!(arguments.buffer[0].dst_access_mask, ac(vk::AccessFlags2::INDIRECT_COMMAND_READ));

    let mut count = DerivedBarriers::default();
    apply_access_queued(
        &mut resource,
        usage_info(RgUsage::IndirectCountRead),
        Some(RgBufferRange::new(84, 4).unwrap()),
        1,
        RgQueueAssignment::Graphics,
        0,
        &mut count,
    );
    assert_eq!(count.buffer.len(), 1);
    assert_eq!(count.buffer[0].offset, 84);
    assert_eq!(count.buffer[0].size, 4);
    assert_eq!(count.buffer[0].dst_stage_mask, st(vk::PipelineStageFlags2::DRAW_INDIRECT));
    assert_eq!(count.buffer[0].dst_access_mask, ac(vk::AccessFlags2::INDIRECT_COMMAND_READ));
}

fn check_compute_write_transitions_cover_every_buffer_consumer() {
    let consumers = [
        (RgUsage::StorageReadCompute, vk::PipelineStageFlags2::COMPUTE_SHADER, vk::AccessFlags2::SHADER_STORAGE_READ),
        (RgUsage::TransferRead, vk::PipelineStageFlags2::COPY, vk::AccessFlags2::TRANSFER_READ),
        (
            RgUsage::VertexInputRead,
            vk::PipelineStageFlags2::VERTEX_ATTRIBUTE_INPUT,
            vk::AccessFlags2::VERTEX_ATTRIBUTE_READ,
        ),
        (RgUsage::IndexInputRead, vk::PipelineStageFlags2::INDEX_INPUT, vk::AccessFlags2::INDEX_READ),
        (RgUsage::ShaderDeviceAddressRead, vk::PipelineStageFlags2::ALL_COMMANDS, vk::AccessFlags2::SHADER_READ),
        (RgUsage::IndirectCommandRead, vk::PipelineStageFlags2::DRAW_INDIRECT, vk::AccessFlags2::INDIRECT_COMMAND_READ),
        (RgUsage::IndirectCountRead, vk::PipelineStageFlags2::DRAW_INDIRECT, vk::AccessFlags2::INDIRECT_COMMAND_READ),
        (
            RgUsage::AccelStructBuildRead,
            vk::PipelineStageFlags2::ACCELERATION_STRUCTURE_BUILD_KHR,
            vk::AccessFlags2::SHADER_READ,
        ),
    ];
    for (usage, stage, access) in consumers {
        let mut resource = buffer_state();
        let mut write = DerivedBarriers::default();
        apply_access(&mut resource, usage_info(RgUsage::StorageWriteCompute), &mut write);
        assert!(write.is_empty());

        let mut read = DerivedBarriers::default();
        apply_access(&mut resource, usage_info(usage), &mut read);
        assert_eq!(read.buffer.len(), 1, "transition for {usage:?}");
        let barrier = read.buffer[0];
        assert_eq!(barrier.src_stage_mask, st(vk::PipelineStageFlags2::COMPUTE_SHADER));
        assert_eq!(barrier.src_access_mask, ac(vk::AccessFlags2::SHADER_STORAGE_WRITE));
        assert_eq!(barrier.dst_stage_mask, st(stage));
        assert_eq!(barrier.dst_access_mask, ac(access));
    }
}

#[test]
fn tests_compute_write_transitions_cover_every_buffer_consumer() {
    check_compute_write_transitions_cover_every_buffer_consumer();
}

#[test]
fn render_graph_compute_write_transitions_cover_every_buffer_consumer() {
    check_compute_write_transitions_cover_every_buffer_consumer();
}

fn check_transfer_write_transitions_to_compute_read() {
    let mut resource = buffer_state();
    let mut barriers = DerivedBarriers::default();
    apply_access(&mut resource, usage_info(RgUsage::TransferWrite), &mut barriers);
    assert!(barriers.is_empty());

    let mut barriers = DerivedBarriers::default();
    apply_access(&mut resource, usage_info(RgUsage::StorageReadCompute), &mut barriers);
    let barrier = barriers.buffer[0];
    assert_eq!(barrier.src_stage_mask, st(vk::PipelineStageFlags2::COPY));
    assert_eq!(barrier.src_access_mask, ac(vk::AccessFlags2::TRANSFER_WRITE));
    assert_eq!(barrier.dst_stage_mask, st(vk::PipelineStageFlags2::COMPUTE_SHADER));
    assert_eq!(barrier.dst_access_mask, ac(vk::AccessFlags2::SHADER_STORAGE_READ));
}

#[test]
fn tests_transfer_write_transitions_to_compute_read() {
    check_transfer_write_transitions_to_compute_read();
}

#[test]
fn render_graph_transfer_write_transitions_to_compute_read() {
    check_transfer_write_transitions_to_compute_read();
}

fn check_byte_ranges_barrier_only_the_overlapping_hazard() {
    let mut resource = RgResourceState { is_image: false, buffer: 0, buffer_size: 256, ..RgResourceState::default() };
    let mut first = DerivedBarriers::default();
    apply_access_queued(
        &mut resource,
        usage_info(RgUsage::StorageWriteCompute),
        Some(RgBufferRange::new(0, 64).unwrap()),
        0,
        RgQueueAssignment::Graphics,
        0,
        &mut first,
    );
    assert!(first.is_empty());

    let mut disjoint = DerivedBarriers::default();
    apply_access_queued(
        &mut resource,
        usage_info(RgUsage::VertexInputRead),
        Some(RgBufferRange::new(64, 64).unwrap()),
        1,
        RgQueueAssignment::Graphics,
        0,
        &mut disjoint,
    );
    assert!(disjoint.is_empty());

    let mut overlap = DerivedBarriers::default();
    apply_access_queued(
        &mut resource,
        usage_info(RgUsage::IndirectCommandRead),
        Some(RgBufferRange::new(32, 64).unwrap()),
        2,
        RgQueueAssignment::Graphics,
        0,
        &mut overlap,
    );
    assert_eq!(overlap.buffer.len(), 1);
    assert_eq!(overlap.buffer[0].offset, 32);
    assert_eq!(overlap.buffer[0].size, 32);
}

#[test]
fn tests_byte_ranges_barrier_only_the_overlapping_hazard() {
    check_byte_ranges_barrier_only_the_overlapping_hazard();
}

#[test]
fn render_graph_byte_ranges_barrier_only_the_overlapping_hazard() {
    check_byte_ranges_barrier_only_the_overlapping_hazard();
}

fn check_buffer_ranges_reject_empty_and_wrapping_inputs() {
    assert_eq!(RgBufferRange::new(4, 0), Err(RgBufferRangeError::Empty));
    assert_eq!(RgBufferRange::new(u64::MAX - 1, 4), Err(RgBufferRangeError::EndOverflow));
}

#[test]
fn tests_buffer_ranges_reject_empty_and_wrapping_inputs() {
    check_buffer_ranges_reject_empty_and_wrapping_inputs();
}

#[test]
fn render_graph_buffer_ranges_reject_empty_and_wrapping_inputs() {
    check_buffer_ranges_reject_empty_and_wrapping_inputs();
}

fn check_async_compute_schedule_pairs_release_and_acquire(count: RgPass) {
    let mut graph = RenderGraph::new();
    let state = graph.alloc_external_buffer_state(owned_buffer_state(RgQueueAssignment::AsyncCompute, 5));
    let buffer = graph.import_buffer(0, Some(state));
    let range = RgBufferRange::new(32, 64).unwrap();
    graph.add_pass(count.access_buffer(buffer, range, RgUsage::StorageWriteCompute));
    graph.add_pass(RgPass::graphics("draw", no_extent()).access_buffer(buffer, range, RgUsage::IndirectCountRead));

    let schedule = graph.barrier_schedule(RgQueueFamilies { graphics: 2, async_compute: Some(5) });
    assert_eq!(schedule[0].queue, RgQueueAssignment::AsyncCompute);
    assert_eq!(schedule[1].queue, RgQueueAssignment::Graphics);
    assert_eq!(schedule[1].wait_for_passes, [0]);
    assert_eq!(schedule[0].after_buffers.len(), 1);
    assert_eq!(schedule[1].before_buffers.len(), 1);
    let release = schedule[0].after_buffers[0];
    assert_eq!(release.src_queue_family_index, 5);
    assert_eq!(release.dst_queue_family_index, 2);
    assert_eq!(release.src_stage_mask, st(vk::PipelineStageFlags2::COMPUTE_SHADER));
    assert_eq!(release.dst_stage_mask, st(vk::PipelineStageFlags2::NONE));
    assert_eq!(release.offset, 32);
    assert_eq!(release.size, 64);
    let acquire = schedule[1].before_buffers[0];
    assert_eq!(acquire.src_queue_family_index, 5);
    assert_eq!(acquire.dst_queue_family_index, 2);
    assert_eq!(acquire.src_stage_mask, st(vk::PipelineStageFlags2::NONE));
    assert_eq!(acquire.dst_stage_mask, st(vk::PipelineStageFlags2::DRAW_INDIRECT));
    assert_eq!(acquire.offset, 32);
    assert_eq!(acquire.size, 64);
}

#[test]
fn tests_async_compute_schedule_pairs_release_and_acquire() {
    check_async_compute_schedule_pairs_release_and_acquire(async_compute("count"));
}

#[test]
fn render_graph_async_compute_schedule_pairs_release_and_acquire() {
    check_async_compute_schedule_pairs_release_and_acquire(async_compute("count"));
}

fn check_async_compute_preference_falls_back(count: RgPass, consume: RgPass) {
    let mut graph = RenderGraph::new();
    let buffer = graph.import_buffer(0, None);
    graph.add_pass(count.access(buffer, RgUsage::StorageWriteCompute));
    graph.add_pass(consume.access(buffer, RgUsage::StorageReadCompute));

    let schedule = graph.barrier_schedule(RgQueueFamilies::graphics_only(3));
    assert_eq!(schedule[0].queue, RgQueueAssignment::Graphics);
    assert_eq!(schedule[1].queue, RgQueueAssignment::Graphics);
    assert!(schedule[1].wait_for_passes.is_empty());
    assert!(schedule[0].after_buffers.is_empty());
    assert_eq!(schedule[1].before_buffers.len(), 1);
    assert_eq!(schedule[1].before_buffers[0].src_queue_family_index, vk::QUEUE_FAMILY_IGNORED);
}

#[test]
fn tests_async_compute_preference_falls_back_to_the_same_graphics_pass() {
    check_async_compute_preference_falls_back(async_compute("count"), async_compute("consume"));
}

#[test]
fn render_graph_async_compute_preference_falls_back_to_the_same_graphics_pass() {
    check_async_compute_preference_falls_back(async_compute("count"), async_compute("consume"));
}

fn check_graph_owned_compute_work_resolves_to_the_independent_queue(tess: RgPass) {
    let mut graph = RenderGraph::new();
    let scratch = graph.register_buffer(RgBufferResource {
        buffer: 42,
        size: 4096,
        usage: vk::BufferUsageFlags::STORAGE_BUFFER.as_raw(),
        lifetime: RgBufferLifetime::Transient,
    });
    graph.add_pass(tess.access(scratch, RgUsage::StorageWriteCompute));

    assert_eq!(
        graph.queue_assignments(RgQueueFamilies { graphics: 0, async_compute: Some(1) }),
        [RgQueueAssignment::AsyncCompute]
    );
    assert_eq!(graph.queue_assignments(RgQueueFamilies::graphics_only(0)), [RgQueueAssignment::Graphics]);
}

#[test]
fn tests_graph_owned_compute_work_resolves_to_the_independent_queue() {
    check_graph_owned_compute_work_resolves_to_the_independent_queue(async_compute("tess-factor"));
}

#[test]
fn render_graph_graph_owned_compute_work_resolves_to_the_independent_queue() {
    check_graph_owned_compute_work_resolves_to_the_independent_queue(async_compute("tess-factor"));
}

#[test]
fn graphics_output_feeds_async_post_compute_in_a_production_graph_shape() {
    let mut graph = RenderGraph::new();
    let color = graph.import_image(7, 8, color_aspect(), ly(vk::ImageLayout::UNDEFINED), None);
    graph.add_pass(RgPass::graphics("scene", no_extent()).color(RgAttachment::clear_store(color)));
    graph.add_pass(async_compute("tonemap").access(color, RgUsage::StorageImageRwCompute));

    assert_eq!(
        graph.queue_assignments(RgQueueFamilies { graphics: 0, async_compute: Some(1) }),
        [RgQueueAssignment::Graphics, RgQueueAssignment::AsyncCompute]
    );
    assert_eq!(
        graph.queue_assignments(RgQueueFamilies::graphics_only(0)),
        [RgQueueAssignment::Graphics, RgQueueAssignment::Graphics]
    );
}

fn check_submission_plan_batches_contiguous_queues(produce: RgPass, transfer: RgPass, consume: RgPass) {
    let mut graph = RenderGraph::new();
    let first_state = graph.alloc_external_buffer_state(owned_buffer_state(RgQueueAssignment::AsyncCompute, 5));
    let first = graph.import_buffer(1, Some(first_state));
    let second_state = graph.alloc_external_buffer_state(owned_buffer_state(RgQueueAssignment::Graphics, 2));
    let second = graph.import_buffer(2, Some(second_state));
    let whole = RgBufferRange::new(0, 256).unwrap();
    graph.add_pass(produce.access_buffer(first, whole, RgUsage::StorageWriteCompute));
    graph.add_pass(
        transfer
            .access_buffer(first, whole, RgUsage::StorageReadCompute)
            .access_buffer(second, whole, RgUsage::StorageWriteCompute),
    );
    graph.add_pass(consume.access_buffer(second, whole, RgUsage::StorageReadCompute));

    let plan = graph.submission_plan(RgQueueFamilies { graphics: 2, async_compute: Some(5) });
    assert_eq!(plan.graphics_batch_count(), 1);
    assert_eq!(plan.compute_batch_count(), 2);
    assert_eq!(plan.batches.len(), 3);
    assert_eq!(plan.batches[0].queue, RgQueueAssignment::AsyncCompute);
    assert_eq!(plan.batches[0].passes, 0..1);
    assert!(plan.batches[0].wait_for_batches.is_empty());
    assert_eq!(plan.batches[1].queue, RgQueueAssignment::Graphics);
    assert_eq!(plan.batches[1].passes, 1..2);
    assert_eq!(plan.batches[1].wait_for_batches, [0]);
    assert_eq!(plan.batches[2].queue, RgQueueAssignment::AsyncCompute);
    assert_eq!(plan.batches[2].passes, 2..3);
    assert_eq!(plan.batches[2].wait_for_batches, [1]);
}

#[test]
fn tests_submission_plan_batches_contiguous_queues_and_links_dependencies() {
    check_submission_plan_batches_contiguous_queues(
        async_compute("async-produce"),
        RgPass::compute("graphics-transfer"),
        async_compute("async-consume"),
    );
}

#[test]
fn render_graph_submission_plan_batches_contiguous_queues_and_links_dependencies() {
    check_submission_plan_batches_contiguous_queues(
        async_compute("async-produce"),
        compute_on_graphics("graphics-transfer"),
        async_compute("async-consume"),
    );
}

fn check_submission_plan_keeps_adjacent_passes(a: RgPass, b: RgPass, c: RgPass, d: RgPass) {
    let mut graph = RenderGraph::new();
    let slot = graph.alloc_external_state(owned_image_state(
        vk::ImageLayout::SHADER_READ_ONLY_OPTIMAL,
        RgQueueAssignment::AsyncCompute,
        3,
    ));
    let image = graph.import_image(0, 0, color_aspect(), ly(vk::ImageLayout::SHADER_READ_ONLY_OPTIMAL), Some(slot));
    graph.add_pass(a.access(image, RgUsage::SampledReadCompute));
    graph.add_pass(b.access(image, RgUsage::SampledReadCompute));
    graph.add_pass(c);
    graph.add_pass(d);

    let plan = graph.submission_plan(RgQueueFamilies { graphics: 1, async_compute: Some(3) });
    assert_eq!(plan.batches.len(), 2);
    assert_eq!(plan.batches[0].passes, 0..2);
    assert_eq!(plan.batches[1].passes, 2..4);
    assert!(plan.batches[0].wait_for_batches.is_empty());
    assert!(plan.batches[1].wait_for_batches.is_empty());
}

#[test]
fn tests_submission_plan_keeps_adjacent_passes_in_one_queue_batch() {
    check_submission_plan_keeps_adjacent_passes(
        async_compute("compute-a"),
        async_compute("compute-b"),
        RgPass::compute("graphics-a"),
        RgPass::compute("graphics-b"),
    );
}

#[test]
fn render_graph_submission_plan_keeps_adjacent_passes_in_one_queue_batch() {
    check_submission_plan_keeps_adjacent_passes(
        async_compute("compute-a"),
        async_compute("compute-b"),
        compute_on_graphics("graphics-a"),
        compute_on_graphics("graphics-b"),
    );
}

fn check_graphics_to_async_uses_graphics_prologue(write: RgPass) {
    let mut graph = RenderGraph::new();
    let slot = graph.alloc_external_state(owned_image_state(
        vk::ImageLayout::SHADER_READ_ONLY_OPTIMAL,
        RgQueueAssignment::Graphics,
        7,
    ));
    let image = graph.import_image(0, 0, color_aspect(), ly(vk::ImageLayout::UNDEFINED), Some(slot));
    graph.add_pass(write.access(image, RgUsage::StorageImageRwCompute));

    let plan = graph.submission_plan(RgQueueFamilies { graphics: 7, async_compute: Some(7) });
    assert_eq!(plan.batches.len(), 2);
    assert_eq!(plan.batches[0].queue, RgQueueAssignment::Graphics);
    assert!(plan.batches[0].passes.is_empty());
    assert_eq!(plan.batches[1].queue, RgQueueAssignment::AsyncCompute);
    assert_eq!(plan.batches[1].wait_for_batches, [0]);
    let acquire = plan.passes[0].before_images[0];
    assert_eq!(acquire.src_queue_family_index, vk::QUEUE_FAMILY_IGNORED);
    assert_eq!(acquire.dst_queue_family_index, vk::QUEUE_FAMILY_IGNORED);
}

#[test]
fn tests_same_family_cross_frame_graphics_to_async_uses_graphics_prologue() {
    check_graphics_to_async_uses_graphics_prologue(async_compute("async-write"));
}

#[test]
fn render_graph_same_family_cross_frame_graphics_to_async_uses_graphics_prologue() {
    check_graphics_to_async_uses_graphics_prologue(async_compute("async-write"));
}

fn check_async_to_graphics_uses_compute_prologue(read: RgPass) {
    let mut graph = RenderGraph::new();
    let slot = graph.alloc_external_state(owned_image_state(vk::ImageLayout::GENERAL, RgQueueAssignment::AsyncCompute, 7));
    let image = graph.import_image(0, 0, color_aspect(), ly(vk::ImageLayout::UNDEFINED), Some(slot));
    graph.add_pass(read.access(image, RgUsage::SampledReadCompute));

    let plan = graph.submission_plan(RgQueueFamilies { graphics: 7, async_compute: Some(7) });
    assert_eq!(plan.batches.len(), 2);
    assert_eq!(plan.batches[0].queue, RgQueueAssignment::AsyncCompute);
    assert!(plan.batches[0].passes.is_empty());
    assert_eq!(plan.batches[1].queue, RgQueueAssignment::Graphics);
    assert_eq!(plan.batches[1].wait_for_batches, [0]);
    let acquire = plan.passes[0].before_images[0];
    assert_eq!(acquire.src_queue_family_index, vk::QUEUE_FAMILY_IGNORED);
    assert_eq!(acquire.dst_queue_family_index, vk::QUEUE_FAMILY_IGNORED);
}

#[test]
fn tests_same_family_cross_frame_async_to_graphics_uses_compute_prologue() {
    check_async_to_graphics_uses_compute_prologue(RgPass::compute("graphics-read"));
}

#[test]
fn render_graph_same_family_cross_frame_async_to_graphics_uses_compute_prologue() {
    check_async_to_graphics_uses_compute_prologue(compute_on_graphics("graphics-read"));
}

fn check_buffer_no_barrier_on_read_after_read() {
    let mut r = buffer_state();
    let mut barriers = DerivedBarriers::default();
    apply_access(&mut r, usage_info(RgUsage::StorageReadCompute), &mut barriers);
    apply_access(&mut r, usage_info(RgUsage::StorageReadFragment), &mut barriers);
    assert!(barriers.is_empty(), "read after read on a buffer emits no barrier");
}

#[test]
fn tests_buffer_no_barrier_on_read_after_read() {
    check_buffer_no_barrier_on_read_after_read();
}

#[test]
fn render_graph_buffer_no_barrier_on_read_after_read() {
    check_buffer_no_barrier_on_read_after_read();
}

fn check_buffer_write_after_read_is_a_hazard() {
    let mut r = buffer_state();
    let mut barriers = DerivedBarriers::default();
    apply_access(&mut r, usage_info(RgUsage::StorageReadCompute), &mut barriers);
    assert!(barriers.is_empty());
    apply_access(&mut r, usage_info(RgUsage::StorageWriteCompute), &mut barriers);
    assert_eq!(barriers.buffer.len(), 1, "write after read is a hazard");
}

#[test]
fn tests_buffer_write_after_read_is_a_hazard() {
    check_buffer_write_after_read_is_a_hazard();
}

#[test]
fn render_graph_buffer_write_after_read_is_a_hazard() {
    check_buffer_write_after_read_is_a_hazard();
}

fn check_seeded_shader_read_image_war_source() {
    let r = image_state(vk::ImageLayout::SHADER_READ_ONLY_OPTIMAL);
    assert_eq!(r.last_stage, st(vk::PipelineStageFlags2::FRAGMENT_SHADER));
    assert_eq!(r.last_access, ac(vk::AccessFlags2::SHADER_SAMPLED_READ));

    let mut r = r;
    let mut barriers = DerivedBarriers::default();
    apply_access(&mut r, usage_info(RgUsage::ColorWrite), &mut barriers);
    assert_eq!(barriers.image.len(), 1);
    let b = barriers.image[0];
    assert_eq!(b.src_stage_mask, st(vk::PipelineStageFlags2::FRAGMENT_SHADER));
    assert_eq!(b.src_access_mask, ac(vk::AccessFlags2::SHADER_SAMPLED_READ));
    assert_eq!(b.new_layout, ly(vk::ImageLayout::COLOR_ATTACHMENT_OPTIMAL));
}

#[test]
fn tests_seeded_shader_read_image_war_source() {
    check_seeded_shader_read_image_war_source();
}

#[test]
fn render_graph_seeded_shader_read_image_war_source() {
    check_seeded_shader_read_image_war_source();
}

fn check_seeded_other_layout_image_has_no_war_source() {
    let r = image_state(vk::ImageLayout::GENERAL);
    assert_eq!(r.last_stage, st(vk::PipelineStageFlags2::TOP_OF_PIPE));
    assert_eq!(r.last_access, ac(vk::AccessFlags2::empty()));
}

#[test]
fn tests_seeded_other_layout_image_has_no_war_source() {
    check_seeded_other_layout_image_has_no_war_source();
}

#[test]
fn render_graph_seeded_other_layout_image_has_no_war_source() {
    check_seeded_other_layout_image_has_no_war_source();
}

fn check_multi_pass_skin_to_vertex_to_color_sequence() {
    let mut deformed = buffer_state();
    let mut target = image_state(vk::ImageLayout::UNDEFINED);

    let mut p0 = DerivedBarriers::default();
    apply_access(&mut deformed, usage_info(RgUsage::StorageWriteCompute), &mut p0);
    assert!(p0.is_empty());

    let mut p1 = DerivedBarriers::default();
    apply_access(&mut deformed, usage_info(RgUsage::VertexInputRead), &mut p1);
    assert_eq!(p1.buffer.len(), 1);
    assert!(p1.image.is_empty());
    assert_eq!(p1.buffer[0].src_stage_mask, st(vk::PipelineStageFlags2::COMPUTE_SHADER));
    assert_eq!(p1.buffer[0].dst_stage_mask, st(vk::PipelineStageFlags2::VERTEX_ATTRIBUTE_INPUT));

    apply_access(&mut target, usage_info(RgUsage::ColorWrite), &mut p1);
    assert_eq!(p1.image.len(), 1);
    assert_eq!(p1.image[0].old_layout, ly(vk::ImageLayout::UNDEFINED));
    assert_eq!(p1.image[0].new_layout, ly(vk::ImageLayout::COLOR_ATTACHMENT_OPTIMAL));
}

#[test]
fn tests_multi_pass_skin_to_vertex_to_color_sequence() {
    check_multi_pass_skin_to_vertex_to_color_sequence();
}

#[test]
fn render_graph_multi_pass_skin_to_vertex_to_color_sequence() {
    check_multi_pass_skin_to_vertex_to_color_sequence();
}

fn check_compute_to_graphics_layout_transition() {
    let mut r = image_state(vk::ImageLayout::UNDEFINED);

    let mut p0 = DerivedBarriers::default();
    apply_access(&mut r, usage_info(RgUsage::StorageImageRwCompute), &mut p0);
    assert_eq!(p0.image.len(), 1);
    assert_eq!(p0.image[0].new_layout, ly(vk::ImageLayout::GENERAL));

    let mut p1 = DerivedBarriers::default();
    apply_access(&mut r, usage_info(RgUsage::SampledRead), &mut p1);
    assert_eq!(p1.image.len(), 1, "compute write → graphics sample needs a barrier");
    let b = p1.image[0];
    assert_eq!(b.src_stage_mask, st(vk::PipelineStageFlags2::COMPUTE_SHADER));
    assert_eq!(b.dst_stage_mask, st(vk::PipelineStageFlags2::FRAGMENT_SHADER));
    assert_eq!(b.old_layout, ly(vk::ImageLayout::GENERAL));
    assert_eq!(b.new_layout, ly(vk::ImageLayout::SHADER_READ_ONLY_OPTIMAL));
}

#[test]
fn tests_compute_to_graphics_layout_transition() {
    check_compute_to_graphics_layout_transition();
}

#[test]
fn render_graph_compute_to_graphics_layout_transition() {
    check_compute_to_graphics_layout_transition();
}

fn check_graphics_to_compute_layout_transition() {
    let mut r = image_state(vk::ImageLayout::UNDEFINED);
    let mut p0 = DerivedBarriers::default();
    apply_access(&mut r, usage_info(RgUsage::ColorWrite), &mut p0);

    let mut p1 = DerivedBarriers::default();
    apply_access(&mut r, usage_info(RgUsage::SampledReadCompute), &mut p1);
    assert_eq!(p1.image.len(), 1);
    let b = p1.image[0];
    assert_eq!(b.src_stage_mask, st(vk::PipelineStageFlags2::COLOR_ATTACHMENT_OUTPUT));
    assert_eq!(b.src_access_mask, ac(vk::AccessFlags2::COLOR_ATTACHMENT_WRITE));
    assert_eq!(b.dst_stage_mask, st(vk::PipelineStageFlags2::COMPUTE_SHADER));
    assert_eq!(b.old_layout, ly(vk::ImageLayout::COLOR_ATTACHMENT_OPTIMAL));
    assert_eq!(b.new_layout, ly(vk::ImageLayout::SHADER_READ_ONLY_OPTIMAL));
}

#[test]
fn tests_graphics_to_compute_layout_transition() {
    check_graphics_to_compute_layout_transition();
}

#[test]
fn render_graph_graphics_to_compute_layout_transition() {
    check_graphics_to_compute_layout_transition();
}

fn check_cross_frame_external_state_write_back() {
    let mut graph = RenderGraph::new();
    let slot = graph.alloc_external_state(RgExternalState::new(ly(vk::ImageLayout::UNDEFINED)));
    let res = graph.import_image(0, 0, color_aspect(), ly(vk::ImageLayout::UNDEFINED), Some(slot));

    let pass = RgPass::graphics("scene", RgExtent2D { width: 4, height: 4 }).color(RgAttachment::clear_store(res));
    graph.add_pass(pass);

    let pass = clone_pass(&graph.passes[0]);
    let _ = graph.derive_pass_barriers(&pass, 0, RgQueueAssignment::Graphics, 0);
    graph.write_external_states();
    assert_eq!(
        graph.external_state(slot).layout,
        ly(vk::ImageLayout::COLOR_ATTACHMENT_OPTIMAL),
        "the exit layout is written back into the external slot"
    );
    assert_eq!(graph.external_state(slot).queue_family, Some(0));

    let mut next = RenderGraph::new();
    next.external_states.push(graph.external_state(slot));
    let res2 = next.import_image(0, 0, color_aspect(), ly(vk::ImageLayout::UNDEFINED), Some(0));
    assert_eq!(
        next.resources[res2.index as usize].layout,
        ly(vk::ImageLayout::COLOR_ATTACHMENT_OPTIMAL),
        "the next frame's entry layout is last frame's exit layout"
    );
    assert_eq!(next.resources[res2.index as usize].queue_family, Some(0));
}

#[test]
fn tests_cross_frame_external_state_write_back() {
    check_cross_frame_external_state_write_back();
}

#[test]
fn render_graph_cross_frame_external_state_write_back() {
    check_cross_frame_external_state_write_back();
}

#[test]
fn external_buffer_state_carries_ownership_without_a_pass_index() {
    let mut graph = RenderGraph::new();
    let slot = graph.alloc_external_buffer_state(owned_buffer_state(RgQueueAssignment::AsyncCompute, 5));
    let buffer = graph.import_buffer(7, Some(slot));
    let whole = RgBufferRange::new(0, 256).unwrap();
    graph.add_pass(RgPass::compute("warm-up"));
    graph.add_pass(async_compute("build").access_buffer(buffer, whole, RgUsage::StorageWriteCompute));
    let families = RgQueueFamilies { graphics: 2, async_compute: Some(5) };
    let (_, exit, _) = graph.compile_barriers(families);
    graph.resources = exit;
    graph.write_external_states();
    let carried = graph.external_buffer_state(slot);
    assert_eq!(carried.accesses.len(), 1);
    assert_eq!(carried.accesses[0].queue, RgQueueAssignment::AsyncCompute);
    assert_eq!(carried.accesses[0].queue_family, 5);
    assert_eq!(carried.accesses[0].last_pass, None);

    let mut next = RenderGraph::new();
    let next_slot = next.alloc_external_buffer_state(carried);
    let next_buffer = next.import_buffer(7, Some(next_slot));
    next.add_pass(async_compute("build").access_buffer(next_buffer, whole, RgUsage::StorageWriteCompute));
    next.add_pass(RgPass::compute("consume").access_buffer(next_buffer, whole, RgUsage::StorageReadCompute));
    let plan = next.submission_plan(families);
    assert_eq!(plan.compute_batch_count(), 1);
    for (index, batch) in plan.batches.iter().enumerate() {
        for &source in &batch.wait_for_batches {
            assert!(source < index, "batch {index} waits on batch {source}, which the submit has not reached");
        }
    }
}

#[test]
fn a_batch_is_named_by_the_run_of_passes_it_covers() {
    let passes = [Some(RgPass::compute("gbuffer")), Some(RgPass::compute("gtao")), Some(RgPass::compute("ssgi"))];

    assert_eq!(batch_label(&passes, 0..3), "gbuffer…ssgi");
    assert_eq!(batch_label(&passes, 1..2), "gtao");
    assert_eq!(
        batch_label(&passes, 1..1),
        "queue-ownership-release",
        "a synthetic prologue batch covers no passes at all"
    );
}

#[test]
fn a_partial_access_splits_the_tracked_range_around_it() {
    let mut resource = RgResourceState { is_image: false, buffer: 0, buffer_size: 256, ..RgResourceState::default() };
    let write = usage_info(RgUsage::StorageWriteCompute);
    let read = usage_info(RgUsage::VertexInputRead);
    let mut barriers = DerivedBarriers::default();
    apply_access_queued(&mut resource, write, None, 0, RgQueueAssignment::Graphics, 0, &mut barriers);
    apply_access_queued(
        &mut resource,
        read,
        Some(RgBufferRange::new(64, 64).unwrap()),
        1,
        RgQueueAssignment::Graphics,
        0,
        &mut barriers,
    );
    let spans: Vec<(u64, u64, bool, Option<usize>)> =
        resource.buffer_accesses.iter().map(|a| (a.start, a.end, a.is_write, a.last_pass)).collect();
    assert_eq!(
        spans,
        vec![(0, 64, true, Some(0)), (128, 256, true, Some(0)), (64, 128, false, Some(1))]
    );
    // The pieces left of the write keep its scope.
    assert_eq!(resource.buffer_accesses[0].stage, write.stage);
    assert_eq!(resource.buffer_accesses[1].access, write.access);
    // The one barrier covers exactly the read range.
    assert_eq!(barriers.buffer.len(), 1);
    assert_eq!((barriers.buffer[0].offset, barriers.buffer[0].size), (64, 64));
}

#[test]
fn each_batch_records_into_the_next_command_buffer_of_its_queue() {
    let mut graph = RenderGraph::new();
    let first_state = graph.alloc_external_buffer_state(owned_buffer_state(RgQueueAssignment::AsyncCompute, 5));
    let first = graph.import_buffer(1, Some(first_state));
    let second_state = graph.alloc_external_buffer_state(owned_buffer_state(RgQueueAssignment::Graphics, 2));
    let second = graph.import_buffer(2, Some(second_state));
    let whole = RgBufferRange::new(0, 256).unwrap();
    graph.add_pass(async_compute("async-produce").access_buffer(first, whole, RgUsage::StorageWriteCompute));
    graph.add_pass(
        RgPass::compute("graphics-transfer")
            .access_buffer(first, whole, RgUsage::StorageReadCompute)
            .access_buffer(second, whole, RgUsage::StorageWriteCompute),
    );
    graph.add_pass(async_compute("async-consume").access_buffer(second, whole, RgUsage::StorageReadCompute));
    let plan = graph.submission_plan(RgQueueFamilies { graphics: 2, async_compute: Some(5) });
    let passes = [
        Some(RgPass::compute("async-produce")),
        Some(RgPass::compute("graphics-transfer")),
        Some(RgPass::compute("async-consume")),
    ];

    assert!(plan.is_chained());
    let graphics = [100u64];
    let compute = [200u64, 201u64];
    let recorded = plan
        .recorded_batches(&passes, &RgBatchCommandBuffers { graphics: &graphics, compute: &compute })
        .unwrap();
    let summary: Vec<(RgQueueAssignment, u64, Vec<usize>, std::ops::Range<usize>, String)> = recorded
        .into_iter()
        .map(|b| (b.queue, b.command_buffer, b.wait_for_batches, b.passes, b.label))
        .collect();
    assert_eq!(
        summary,
        vec![
            (RgQueueAssignment::AsyncCompute, 200, vec![], 0..1, "async-produce".to_string()),
            (RgQueueAssignment::Graphics, 100, vec![0], 1..2, "graphics-transfer".to_string()),
            (RgQueueAssignment::AsyncCompute, 201, vec![1], 2..3, "async-consume".to_string()),
        ]
    );

    let too_few = plan.recorded_batches(&passes, &RgBatchCommandBuffers { graphics: &graphics, compute: &compute[..1] });
    match too_few {
        Err(Error::InvalidUploadData(message)) => {
            assert_eq!(message, "render-graph submission plan does not match its command buffers")
        }
        _ => panic!("a missing compute command buffer is refused"),
    }
    let wrong_passes = plan.recorded_batches(&passes[..2], &RgBatchCommandBuffers { graphics: &graphics, compute: &compute });
    assert!(matches!(wrong_passes, Err(Error::InvalidUploadData(_))));
}

#[test]
fn a_graph_is_compilable_only_when_its_declarations_fit_its_resources() {
    let mut graph = RenderGraph::new();
    let buffer = graph.import_buffer(7, None);
    let image = graph.import_image(3, 4, color_aspect(), ly(vk::ImageLayout::UNDEFINED), None);
    graph.add_pass(RgPass::compute("fill").access(buffer, RgUsage::StorageWriteCompute));
    graph.add_pass(RgPass::graphics("draw", RgExtent2D { width: 4, height: 4 }).color(RgAttachment::clear_store(image)));
    assert!(graph.is_compilable());

    let mut sampled_buffer = RenderGraph::new();
    let buffer = sampled_buffer.import_buffer(7, None);
    sampled_buffer.add_pass(RgPass::compute("sample").access(buffer, RgUsage::SampledRead));
    assert!(!sampled_buffer.is_compilable(), "a buffer cannot be sampled as an image");

    let mut drawn_into_buffer = RenderGraph::new();
    let buffer = drawn_into_buffer.import_buffer(7, None);
    drawn_into_buffer
        .add_pass(RgPass::graphics("draw", RgExtent2D { width: 4, height: 4 }).color(RgAttachment::clear_store(buffer)));
    assert!(!drawn_into_buffer.is_compilable(), "a color attachment must be an image");
}

#[test]
fn a_graphics_only_topology_compiles_to_one_graphics_batch() {
    let mut graph = RenderGraph::new();
    let buffer = graph.import_buffer(1, None);
    let whole = RgBufferRange::new(0, 256).unwrap();
    graph.add_pass(async_compute("produce").access_buffer(buffer, whole, RgUsage::StorageWriteCompute));
    graph.add_pass(RgPass::compute("transfer").access_buffer(buffer, whole, RgUsage::StorageReadCompute));
    graph.add_pass(async_compute("consume").access_buffer(buffer, whole, RgUsage::StorageReadCompute));
    let plan = graph.submission_plan(RgQueueFamilies::graphics_only(2));
    assert_eq!(plan.compute_batch_count(), 0);
    assert_eq!(plan.graphics_batch_count(), 1);
    assert_eq!(plan.batches[0].passes, 0..3);

    let empty = RenderGraph::new().submission_plan(RgQueueFamilies::graphics_only(2));
    assert_eq!(empty.batches.len(), 0);
}

#[test]
fn a_buffer_moving_between_families_is_released_and_acquired_over_the_same_bytes() {
    let mut resource = RgResourceState { is_image: false, buffer: 3, buffer_size: 256, ..RgResourceState::default() };
    let mut first = DerivedBarriers::default();
    apply_access_queued(
        &mut resource,
        usage_info(RgUsage::StorageWriteCompute),
        None,
        0,
        RgQueueAssignment::AsyncCompute,
        5,
        &mut first,
    );
    let mut second = DerivedBarriers::default();
    apply_access_queued(
        &mut resource,
        usage_info(RgUsage::VertexInputRead),
        Some(RgBufferRange::new(32, 64).unwrap()),
        1,
        RgQueueAssignment::Graphics,
        2,
        &mut second,
    );
    assert_eq!(second.buffer.len(), 1);
    assert_eq!(second.releases.len(), 1);
    let acquire = second.buffer[0];
    let release = match second.releases[0].barrier {
        RgQueueReleaseBarrier::Buffer(b) => b,
        _ => panic!("a family change releases the bytes"),
    };
    assert_eq!((acquire.offset, acquire.size), (32, 64));
    assert_eq!((release.offset, release.size), (32, 64));
    assert_eq!((acquire.src_queue_family_index, acquire.dst_queue_family_index), (5, 2));
    assert_eq!((release.src_queue_family_index, release.dst_queue_family_index), (5, 2));
    assert_eq!(release.buffer, acquire.buffer);
    assert_eq!(second.releases[0].pass, Some(0));
    assert_eq!(second.releases[0].source_queue, RgQueueAssignment::AsyncCompute);
}

#[test]
fn registering_a_buffer_twice_returns_its_handle_and_adds_no_entry() {
    let mut graph = RenderGraph::new();
    graph.import_buffer(5, None);
    let resource = RgBufferResource { buffer: 9, size: 4096, usage: 0x20 | 0x80, lifetime: RgBufferLifetime::Transient };
    let first = graph.register_buffer(resource);
    let second = graph.register_buffer(resource);
    assert_eq!(first, second);
    assert_eq!(first.index, 1);
    assert_eq!(graph.resources.len(), 2);
    assert_eq!(graph.buffer_resource(second), Some(resource));
}

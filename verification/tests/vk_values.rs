use ash::vk;
use rendering::profiler::gpu::PIPELINE_STATS_FLAGS;
use rendering::vk_values::{
    STAGE_NONE, STAGE_TOP_OF_PIPE, STAGE_DRAW_INDIRECT, STAGE_VERTEX_INPUT, STAGE_VERTEX_SHADER, STAGE_TESSELLATION_CONTROL_SHADER, STAGE_TESSELLATION_EVALUATION_SHADER, STAGE_GEOMETRY_SHADER, STAGE_FRAGMENT_SHADER, STAGE_EARLY_FRAGMENT_TESTS, STAGE_LATE_FRAGMENT_TESTS, STAGE_COLOR_ATTACHMENT_OUTPUT, STAGE_COMPUTE_SHADER, STAGE_BOTTOM_OF_PIPE, STAGE_ALL_GRAPHICS, STAGE_ALL_COMMANDS, STAGE_MESH_SHADER_EXT, STAGE_ACCELERATION_STRUCTURE_BUILD_KHR, STAGE_COPY, STAGE_INDEX_INPUT, STAGE_VERTEX_ATTRIBUTE_INPUT, STAGE_PRE_RASTERIZATION_SHADERS, ACCESS_NONE, ACCESS_INDIRECT_COMMAND_READ, ACCESS_INDEX_READ, ACCESS_VERTEX_ATTRIBUTE_READ, ACCESS_SHADER_READ, ACCESS_COLOR_ATTACHMENT_WRITE, ACCESS_DEPTH_STENCIL_ATTACHMENT_WRITE, ACCESS_TRANSFER_READ, ACCESS_TRANSFER_WRITE, ACCESS_MEMORY_READ, ACCESS_MEMORY_WRITE, ACCESS_SHADER_SAMPLED_READ, ACCESS_SHADER_STORAGE_READ, ACCESS_SHADER_STORAGE_WRITE, LAYOUT_UNDEFINED, LAYOUT_GENERAL, LAYOUT_COLOR_ATTACHMENT_OPTIMAL, LAYOUT_SHADER_READ_ONLY_OPTIMAL, LAYOUT_DEPTH_ATTACHMENT_OPTIMAL, BUFFER_USAGE_TRANSFER_SRC, BUFFER_USAGE_TRANSFER_DST, BUFFER_USAGE_STORAGE_BUFFER, BUFFER_USAGE_INDEX_BUFFER, BUFFER_USAGE_VERTEX_BUFFER, BUFFER_USAGE_INDIRECT_BUFFER, BUFFER_USAGE_SHADER_DEVICE_ADDRESS, BUFFER_USAGE_ACCELERATION_STRUCTURE_BUILD_INPUT_READ_ONLY_KHR, ASPECT_COLOR, QUEUE_FAMILY_IGNORED, WHOLE_SIZE, REMAINING_MIP_LEVELS, REMAINING_ARRAY_LAYERS, ATTACHMENT_LOAD_OP_LOAD, ATTACHMENT_LOAD_OP_CLEAR, ATTACHMENT_LOAD_OP_DONT_CARE, ATTACHMENT_STORE_OP_STORE, ATTACHMENT_STORE_OP_DONT_CARE, GRAPHICS_ONLY_STAGES
};

#[test]
fn the_vulkan_values_match_the_vulkan_bindings() {
    assert_eq!(STAGE_NONE, vk::PipelineStageFlags2::NONE.as_raw());
    assert_eq!(STAGE_TOP_OF_PIPE, vk::PipelineStageFlags2::TOP_OF_PIPE.as_raw());
    assert_eq!(STAGE_DRAW_INDIRECT, vk::PipelineStageFlags2::DRAW_INDIRECT.as_raw());
    assert_eq!(STAGE_VERTEX_INPUT, vk::PipelineStageFlags2::VERTEX_INPUT.as_raw());
    assert_eq!(STAGE_VERTEX_SHADER, vk::PipelineStageFlags2::VERTEX_SHADER.as_raw());
    assert_eq!(STAGE_TESSELLATION_CONTROL_SHADER, vk::PipelineStageFlags2::TESSELLATION_CONTROL_SHADER.as_raw());
    assert_eq!(STAGE_TESSELLATION_EVALUATION_SHADER, vk::PipelineStageFlags2::TESSELLATION_EVALUATION_SHADER.as_raw());
    assert_eq!(STAGE_GEOMETRY_SHADER, vk::PipelineStageFlags2::GEOMETRY_SHADER.as_raw());
    assert_eq!(STAGE_FRAGMENT_SHADER, vk::PipelineStageFlags2::FRAGMENT_SHADER.as_raw());
    assert_eq!(STAGE_EARLY_FRAGMENT_TESTS, vk::PipelineStageFlags2::EARLY_FRAGMENT_TESTS.as_raw());
    assert_eq!(STAGE_LATE_FRAGMENT_TESTS, vk::PipelineStageFlags2::LATE_FRAGMENT_TESTS.as_raw());
    assert_eq!(STAGE_COLOR_ATTACHMENT_OUTPUT, vk::PipelineStageFlags2::COLOR_ATTACHMENT_OUTPUT.as_raw());
    assert_eq!(STAGE_COMPUTE_SHADER, vk::PipelineStageFlags2::COMPUTE_SHADER.as_raw());
    assert_eq!(STAGE_BOTTOM_OF_PIPE, vk::PipelineStageFlags2::BOTTOM_OF_PIPE.as_raw());
    assert_eq!(STAGE_ALL_GRAPHICS, vk::PipelineStageFlags2::ALL_GRAPHICS.as_raw());
    assert_eq!(STAGE_ALL_COMMANDS, vk::PipelineStageFlags2::ALL_COMMANDS.as_raw());
    assert_eq!(STAGE_MESH_SHADER_EXT, vk::PipelineStageFlags2::MESH_SHADER_EXT.as_raw());
    assert_eq!(STAGE_ACCELERATION_STRUCTURE_BUILD_KHR, vk::PipelineStageFlags2::ACCELERATION_STRUCTURE_BUILD_KHR.as_raw());
    assert_eq!(STAGE_COPY, vk::PipelineStageFlags2::COPY.as_raw());
    assert_eq!(STAGE_INDEX_INPUT, vk::PipelineStageFlags2::INDEX_INPUT.as_raw());
    assert_eq!(STAGE_VERTEX_ATTRIBUTE_INPUT, vk::PipelineStageFlags2::VERTEX_ATTRIBUTE_INPUT.as_raw());
    assert_eq!(STAGE_PRE_RASTERIZATION_SHADERS, vk::PipelineStageFlags2::PRE_RASTERIZATION_SHADERS.as_raw());
    assert_eq!(ACCESS_NONE, vk::AccessFlags2::NONE.as_raw());
    assert_eq!(ACCESS_INDIRECT_COMMAND_READ, vk::AccessFlags2::INDIRECT_COMMAND_READ.as_raw());
    assert_eq!(ACCESS_INDEX_READ, vk::AccessFlags2::INDEX_READ.as_raw());
    assert_eq!(ACCESS_VERTEX_ATTRIBUTE_READ, vk::AccessFlags2::VERTEX_ATTRIBUTE_READ.as_raw());
    assert_eq!(ACCESS_SHADER_READ, vk::AccessFlags2::SHADER_READ.as_raw());
    assert_eq!(ACCESS_COLOR_ATTACHMENT_WRITE, vk::AccessFlags2::COLOR_ATTACHMENT_WRITE.as_raw());
    assert_eq!(ACCESS_DEPTH_STENCIL_ATTACHMENT_WRITE, vk::AccessFlags2::DEPTH_STENCIL_ATTACHMENT_WRITE.as_raw());
    assert_eq!(ACCESS_TRANSFER_READ, vk::AccessFlags2::TRANSFER_READ.as_raw());
    assert_eq!(ACCESS_TRANSFER_WRITE, vk::AccessFlags2::TRANSFER_WRITE.as_raw());
    assert_eq!(ACCESS_MEMORY_READ, vk::AccessFlags2::MEMORY_READ.as_raw());
    assert_eq!(ACCESS_MEMORY_WRITE, vk::AccessFlags2::MEMORY_WRITE.as_raw());
    assert_eq!(ACCESS_SHADER_SAMPLED_READ, vk::AccessFlags2::SHADER_SAMPLED_READ.as_raw());
    assert_eq!(ACCESS_SHADER_STORAGE_READ, vk::AccessFlags2::SHADER_STORAGE_READ.as_raw());
    assert_eq!(ACCESS_SHADER_STORAGE_WRITE, vk::AccessFlags2::SHADER_STORAGE_WRITE.as_raw());
    assert_eq!(LAYOUT_UNDEFINED, vk::ImageLayout::UNDEFINED.as_raw());
    assert_eq!(LAYOUT_GENERAL, vk::ImageLayout::GENERAL.as_raw());
    assert_eq!(LAYOUT_COLOR_ATTACHMENT_OPTIMAL, vk::ImageLayout::COLOR_ATTACHMENT_OPTIMAL.as_raw());
    assert_eq!(LAYOUT_SHADER_READ_ONLY_OPTIMAL, vk::ImageLayout::SHADER_READ_ONLY_OPTIMAL.as_raw());
    assert_eq!(LAYOUT_DEPTH_ATTACHMENT_OPTIMAL, vk::ImageLayout::DEPTH_ATTACHMENT_OPTIMAL.as_raw());
    assert_eq!(BUFFER_USAGE_TRANSFER_SRC, vk::BufferUsageFlags::TRANSFER_SRC.as_raw());
    assert_eq!(BUFFER_USAGE_TRANSFER_DST, vk::BufferUsageFlags::TRANSFER_DST.as_raw());
    assert_eq!(BUFFER_USAGE_STORAGE_BUFFER, vk::BufferUsageFlags::STORAGE_BUFFER.as_raw());
    assert_eq!(BUFFER_USAGE_INDEX_BUFFER, vk::BufferUsageFlags::INDEX_BUFFER.as_raw());
    assert_eq!(BUFFER_USAGE_VERTEX_BUFFER, vk::BufferUsageFlags::VERTEX_BUFFER.as_raw());
    assert_eq!(BUFFER_USAGE_INDIRECT_BUFFER, vk::BufferUsageFlags::INDIRECT_BUFFER.as_raw());
    assert_eq!(BUFFER_USAGE_SHADER_DEVICE_ADDRESS, vk::BufferUsageFlags::SHADER_DEVICE_ADDRESS.as_raw());
    assert_eq!(BUFFER_USAGE_ACCELERATION_STRUCTURE_BUILD_INPUT_READ_ONLY_KHR, vk::BufferUsageFlags::ACCELERATION_STRUCTURE_BUILD_INPUT_READ_ONLY_KHR.as_raw());
    assert_eq!(ASPECT_COLOR, vk::ImageAspectFlags::COLOR.as_raw());
    assert_eq!(QUEUE_FAMILY_IGNORED, vk::QUEUE_FAMILY_IGNORED);
    assert_eq!(WHOLE_SIZE, vk::WHOLE_SIZE);
    assert_eq!(REMAINING_MIP_LEVELS, vk::REMAINING_MIP_LEVELS);
    assert_eq!(REMAINING_ARRAY_LAYERS, vk::REMAINING_ARRAY_LAYERS);
    assert_eq!(ATTACHMENT_LOAD_OP_LOAD, vk::AttachmentLoadOp::LOAD.as_raw());
    assert_eq!(ATTACHMENT_LOAD_OP_CLEAR, vk::AttachmentLoadOp::CLEAR.as_raw());
    assert_eq!(ATTACHMENT_LOAD_OP_DONT_CARE, vk::AttachmentLoadOp::DONT_CARE.as_raw());
    assert_eq!(ATTACHMENT_STORE_OP_STORE, vk::AttachmentStoreOp::STORE.as_raw());
    assert_eq!(ATTACHMENT_STORE_OP_DONT_CARE, vk::AttachmentStoreOp::DONT_CARE.as_raw());
}

#[test]
fn graphics_only_stages_are_the_rasterization_stages() {
    let graphics = vk::PipelineStageFlags2::DRAW_INDIRECT
        | vk::PipelineStageFlags2::VERTEX_INPUT
        | vk::PipelineStageFlags2::VERTEX_SHADER
        | vk::PipelineStageFlags2::TESSELLATION_CONTROL_SHADER
        | vk::PipelineStageFlags2::TESSELLATION_EVALUATION_SHADER
        | vk::PipelineStageFlags2::GEOMETRY_SHADER
        | vk::PipelineStageFlags2::FRAGMENT_SHADER
        | vk::PipelineStageFlags2::EARLY_FRAGMENT_TESTS
        | vk::PipelineStageFlags2::LATE_FRAGMENT_TESTS
        | vk::PipelineStageFlags2::COLOR_ATTACHMENT_OUTPUT
        | vk::PipelineStageFlags2::ALL_GRAPHICS
        | vk::PipelineStageFlags2::INDEX_INPUT
        | vk::PipelineStageFlags2::VERTEX_ATTRIBUTE_INPUT
        | vk::PipelineStageFlags2::PRE_RASTERIZATION_SHADERS
        | vk::PipelineStageFlags2::MESH_SHADER_EXT;
    assert_eq!(GRAPHICS_ONLY_STAGES, graphics.as_raw());
}

#[test]
fn the_pipeline_statistics_set_is_the_six_counters_in_bit_order() {
    let flags = vk::QueryPipelineStatisticFlags::INPUT_ASSEMBLY_VERTICES
        | vk::QueryPipelineStatisticFlags::VERTEX_SHADER_INVOCATIONS
        | vk::QueryPipelineStatisticFlags::CLIPPING_INVOCATIONS
        | vk::QueryPipelineStatisticFlags::CLIPPING_PRIMITIVES
        | vk::QueryPipelineStatisticFlags::FRAGMENT_SHADER_INVOCATIONS
        | vk::QueryPipelineStatisticFlags::COMPUTE_SHADER_INVOCATIONS;
    assert_eq!(PIPELINE_STATS_FLAGS, flags.as_raw());
    assert_eq!(PIPELINE_STATS_FLAGS.count_ones(), 6);
}

//! The Vulkan synchronization values the render graph reasons about, held as the plain
//! integers the Vulkan ABI fixes for them: pipeline-stage and access bits (64-bit
//! `*FlagBits2`), image layouts, buffer-usage bits, and the sentinel values for "whole
//! buffer", "remaining levels/layers" and "no queue-family transfer".
use vstd::prelude::*;

verus! {

/// `VK_PIPELINE_STAGE_2_NONE`.
pub const STAGE_NONE: u64 = 0;
/// `VK_PIPELINE_STAGE_2_TOP_OF_PIPE_BIT`.
pub const STAGE_TOP_OF_PIPE: u64 = 0x1;
/// `VK_PIPELINE_STAGE_2_DRAW_INDIRECT_BIT`.
pub const STAGE_DRAW_INDIRECT: u64 = 0x2;
/// `VK_PIPELINE_STAGE_2_VERTEX_INPUT_BIT`.
pub const STAGE_VERTEX_INPUT: u64 = 0x4;
/// `VK_PIPELINE_STAGE_2_VERTEX_SHADER_BIT`.
pub const STAGE_VERTEX_SHADER: u64 = 0x8;
/// `VK_PIPELINE_STAGE_2_TESSELLATION_CONTROL_SHADER_BIT`.
pub const STAGE_TESSELLATION_CONTROL_SHADER: u64 = 0x10;
/// `VK_PIPELINE_STAGE_2_TESSELLATION_EVALUATION_SHADER_BIT`.
pub const STAGE_TESSELLATION_EVALUATION_SHADER: u64 = 0x20;
/// `VK_PIPELINE_STAGE_2_GEOMETRY_SHADER_BIT`.
pub const STAGE_GEOMETRY_SHADER: u64 = 0x40;
/// `VK_PIPELINE_STAGE_2_FRAGMENT_SHADER_BIT`.
pub const STAGE_FRAGMENT_SHADER: u64 = 0x80;
/// `VK_PIPELINE_STAGE_2_EARLY_FRAGMENT_TESTS_BIT`.
pub const STAGE_EARLY_FRAGMENT_TESTS: u64 = 0x100;
/// `VK_PIPELINE_STAGE_2_LATE_FRAGMENT_TESTS_BIT`.
pub const STAGE_LATE_FRAGMENT_TESTS: u64 = 0x200;
/// `VK_PIPELINE_STAGE_2_COLOR_ATTACHMENT_OUTPUT_BIT`.
pub const STAGE_COLOR_ATTACHMENT_OUTPUT: u64 = 0x400;
/// `VK_PIPELINE_STAGE_2_COMPUTE_SHADER_BIT`.
pub const STAGE_COMPUTE_SHADER: u64 = 0x800;
/// `VK_PIPELINE_STAGE_2_BOTTOM_OF_PIPE_BIT`.
pub const STAGE_BOTTOM_OF_PIPE: u64 = 0x2000;
/// `VK_PIPELINE_STAGE_2_ALL_GRAPHICS_BIT`.
pub const STAGE_ALL_GRAPHICS: u64 = 0x8000;
/// `VK_PIPELINE_STAGE_2_ALL_COMMANDS_BIT`.
pub const STAGE_ALL_COMMANDS: u64 = 0x10000;
/// `VK_PIPELINE_STAGE_2_MESH_SHADER_BIT_EXT`.
pub const STAGE_MESH_SHADER_EXT: u64 = 0x10_0000;
/// `VK_PIPELINE_STAGE_2_ACCELERATION_STRUCTURE_BUILD_BIT_KHR`.
pub const STAGE_ACCELERATION_STRUCTURE_BUILD_KHR: u64 = 0x200_0000;
/// `VK_PIPELINE_STAGE_2_COPY_BIT`.
pub const STAGE_COPY: u64 = 0x1_0000_0000;
/// `VK_PIPELINE_STAGE_2_INDEX_INPUT_BIT`.
pub const STAGE_INDEX_INPUT: u64 = 0x10_0000_0000;
/// `VK_PIPELINE_STAGE_2_VERTEX_ATTRIBUTE_INPUT_BIT`.
pub const STAGE_VERTEX_ATTRIBUTE_INPUT: u64 = 0x20_0000_0000;
/// `VK_PIPELINE_STAGE_2_PRE_RASTERIZATION_SHADERS_BIT`.
pub const STAGE_PRE_RASTERIZATION_SHADERS: u64 = 0x40_0000_0000;

/// `VK_ACCESS_2_NONE`.
pub const ACCESS_NONE: u64 = 0;
/// `VK_ACCESS_2_INDIRECT_COMMAND_READ_BIT`.
pub const ACCESS_INDIRECT_COMMAND_READ: u64 = 0x1;
/// `VK_ACCESS_2_INDEX_READ_BIT`.
pub const ACCESS_INDEX_READ: u64 = 0x2;
/// `VK_ACCESS_2_VERTEX_ATTRIBUTE_READ_BIT`.
pub const ACCESS_VERTEX_ATTRIBUTE_READ: u64 = 0x4;
/// `VK_ACCESS_2_SHADER_READ_BIT`.
pub const ACCESS_SHADER_READ: u64 = 0x20;
/// `VK_ACCESS_2_COLOR_ATTACHMENT_WRITE_BIT`.
pub const ACCESS_COLOR_ATTACHMENT_WRITE: u64 = 0x100;
/// `VK_ACCESS_2_DEPTH_STENCIL_ATTACHMENT_WRITE_BIT`.
pub const ACCESS_DEPTH_STENCIL_ATTACHMENT_WRITE: u64 = 0x400;
/// `VK_ACCESS_2_TRANSFER_READ_BIT`.
pub const ACCESS_TRANSFER_READ: u64 = 0x800;
/// `VK_ACCESS_2_TRANSFER_WRITE_BIT`.
pub const ACCESS_TRANSFER_WRITE: u64 = 0x1000;
/// `VK_ACCESS_2_MEMORY_READ_BIT`.
pub const ACCESS_MEMORY_READ: u64 = 0x8000;
/// `VK_ACCESS_2_MEMORY_WRITE_BIT`.
pub const ACCESS_MEMORY_WRITE: u64 = 0x10000;
/// `VK_ACCESS_2_SHADER_SAMPLED_READ_BIT`.
pub const ACCESS_SHADER_SAMPLED_READ: u64 = 0x1_0000_0000;
/// `VK_ACCESS_2_SHADER_STORAGE_READ_BIT`.
pub const ACCESS_SHADER_STORAGE_READ: u64 = 0x2_0000_0000;
/// `VK_ACCESS_2_SHADER_STORAGE_WRITE_BIT`.
pub const ACCESS_SHADER_STORAGE_WRITE: u64 = 0x4_0000_0000;

/// `VK_IMAGE_LAYOUT_UNDEFINED`.
pub const LAYOUT_UNDEFINED: i32 = 0;
/// `VK_IMAGE_LAYOUT_GENERAL`.
pub const LAYOUT_GENERAL: i32 = 1;
/// `VK_IMAGE_LAYOUT_COLOR_ATTACHMENT_OPTIMAL`.
pub const LAYOUT_COLOR_ATTACHMENT_OPTIMAL: i32 = 2;
/// `VK_IMAGE_LAYOUT_SHADER_READ_ONLY_OPTIMAL`.
pub const LAYOUT_SHADER_READ_ONLY_OPTIMAL: i32 = 5;
/// `VK_IMAGE_LAYOUT_DEPTH_ATTACHMENT_OPTIMAL`.
pub const LAYOUT_DEPTH_ATTACHMENT_OPTIMAL: i32 = 1_000_241_000;

/// `VK_BUFFER_USAGE_TRANSFER_SRC_BIT`.
pub const BUFFER_USAGE_TRANSFER_SRC: u32 = 0x1;
/// `VK_BUFFER_USAGE_TRANSFER_DST_BIT`.
pub const BUFFER_USAGE_TRANSFER_DST: u32 = 0x2;
/// `VK_BUFFER_USAGE_STORAGE_BUFFER_BIT`.
pub const BUFFER_USAGE_STORAGE_BUFFER: u32 = 0x20;
/// `VK_BUFFER_USAGE_INDEX_BUFFER_BIT`.
pub const BUFFER_USAGE_INDEX_BUFFER: u32 = 0x40;
/// `VK_BUFFER_USAGE_VERTEX_BUFFER_BIT`.
pub const BUFFER_USAGE_VERTEX_BUFFER: u32 = 0x80;
/// `VK_BUFFER_USAGE_INDIRECT_BUFFER_BIT`.
pub const BUFFER_USAGE_INDIRECT_BUFFER: u32 = 0x100;
/// `VK_BUFFER_USAGE_SHADER_DEVICE_ADDRESS_BIT`.
pub const BUFFER_USAGE_SHADER_DEVICE_ADDRESS: u32 = 0x2_0000;
/// `VK_BUFFER_USAGE_ACCELERATION_STRUCTURE_BUILD_INPUT_READ_ONLY_BIT_KHR`.
pub const BUFFER_USAGE_ACCELERATION_STRUCTURE_BUILD_INPUT_READ_ONLY_KHR: u32 = 0x8_0000;

/// `VK_IMAGE_ASPECT_COLOR_BIT`.
pub const ASPECT_COLOR: u32 = 0x1;

/// `VK_QUEUE_FAMILY_IGNORED`: no queue-family ownership transfer.
pub const QUEUE_FAMILY_IGNORED: u32 = 0xFFFF_FFFF;
/// `VK_WHOLE_SIZE`: a buffer range that runs to the end of the buffer.
pub const WHOLE_SIZE: u64 = 0xFFFF_FFFF_FFFF_FFFF;
/// `VK_REMAINING_MIP_LEVELS`.
pub const REMAINING_MIP_LEVELS: u32 = 0xFFFF_FFFF;
/// `VK_REMAINING_ARRAY_LAYERS`.
pub const REMAINING_ARRAY_LAYERS: u32 = 0xFFFF_FFFF;

/// `VK_ATTACHMENT_LOAD_OP_LOAD`.
pub const ATTACHMENT_LOAD_OP_LOAD: i32 = 0;
/// `VK_ATTACHMENT_LOAD_OP_CLEAR`.
pub const ATTACHMENT_LOAD_OP_CLEAR: i32 = 1;
/// `VK_ATTACHMENT_LOAD_OP_DONT_CARE`.
pub const ATTACHMENT_LOAD_OP_DONT_CARE: i32 = 2;
/// `VK_ATTACHMENT_STORE_OP_STORE`.
pub const ATTACHMENT_STORE_OP_STORE: i32 = 0;
/// `VK_ATTACHMENT_STORE_OP_DONT_CARE`.
pub const ATTACHMENT_STORE_OP_DONT_CARE: i32 = 1;

/// Pipeline stages only a graphics-capable queue can express.
pub const GRAPHICS_ONLY_STAGES: u64 = STAGE_DRAW_INDIRECT | STAGE_VERTEX_INPUT
    | STAGE_VERTEX_SHADER | STAGE_TESSELLATION_CONTROL_SHADER
    | STAGE_TESSELLATION_EVALUATION_SHADER | STAGE_GEOMETRY_SHADER | STAGE_FRAGMENT_SHADER
    | STAGE_EARLY_FRAGMENT_TESTS | STAGE_LATE_FRAGMENT_TESTS | STAGE_COLOR_ATTACHMENT_OUTPUT
    | STAGE_ALL_GRAPHICS | STAGE_INDEX_INPUT | STAGE_VERTEX_ATTRIBUTE_INPUT
    | STAGE_PRE_RASTERIZATION_SHADERS | STAGE_MESH_SHADER_EXT;

} // verus!

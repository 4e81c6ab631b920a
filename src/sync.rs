//! Barrier synthesis: turns an abstract hazard (a buffer written then used, or
//! a texture moving from one layout to another) into the pipeline stages and
//! memory accesses a backend barrier must name.
//!
//! Stage and access masks are bit sets whose bit values follow Vulkan's
//! `VkPipelineStageFlagBits` and `VkAccessFlagBits`, so a Vulkan backend can
//! hand them to the driver unchanged.
use vstd::prelude::*;
use crate::rhi::{ImageLayout, TextureFormat, format_is_depth, is_depth_format};

verus! {

pub const STAGE_TOP_OF_PIPE: u32 = 0x1;
pub const STAGE_VERTEX_SHADER: u32 = 0x8;
pub const STAGE_FRAGMENT_SHADER: u32 = 0x80;
pub const STAGE_EARLY_FRAGMENT_TESTS: u32 = 0x100;
pub const STAGE_LATE_FRAGMENT_TESTS: u32 = 0x200;
pub const STAGE_COLOR_ATTACHMENT_OUTPUT: u32 = 0x400;
pub const STAGE_COMPUTE_SHADER: u32 = 0x800;
pub const STAGE_TRANSFER: u32 = 0x1000;
pub const STAGE_BOTTOM_OF_PIPE: u32 = 0x2000;
pub const STAGE_ALL_COMMANDS: u32 = 0x10000;

/// Every shader stage that may read a resource: vertex, fragment and compute.
pub const STAGE_ALL_SHADERS: u32 = STAGE_VERTEX_SHADER | STAGE_FRAGMENT_SHADER | STAGE_COMPUTE_SHADER;
/// Both depth test stages.
pub const STAGE_FRAGMENT_TESTS: u32 = STAGE_EARLY_FRAGMENT_TESTS | STAGE_LATE_FRAGMENT_TESTS;

pub const ACCESS_NONE: u32 = 0;
pub const ACCESS_SHADER_READ: u32 = 0x20;
pub const ACCESS_SHADER_WRITE: u32 = 0x40;
pub const ACCESS_COLOR_ATTACHMENT_WRITE: u32 = 0x100;
pub const ACCESS_DEPTH_STENCIL_ATTACHMENT_WRITE: u32 = 0x400;
pub const ACCESS_TRANSFER_READ: u32 = 0x800;
pub const ACCESS_TRANSFER_WRITE: u32 = 0x1000;
pub const ACCESS_MEMORY_READ: u32 = 0x8000;
pub const ACCESS_MEMORY_WRITE: u32 = 0x10000;

/// Full memory access, used by the conservative fallback barrier.
pub const ACCESS_MEMORY_READ_WRITE: u32 = ACCESS_MEMORY_READ | ACCESS_MEMORY_WRITE;

/// Source and destination synchronization scopes of one barrier.
#[derive(Debug, Clone, Copy, PartialEq, Eq, Structural)]
pub struct BarrierMasks {
    pub src_stage: u32,
    pub src_access: u32,
    pub dst_stage: u32,
    pub dst_access: u32,
}

/// Image aspect a texture barrier covers.
#[derive(Debug, Clone, Copy, PartialEq, Eq, Structural)]
pub enum ImageAspect {
    Color,
    Depth,
}

/// A complete texture layout-transition barrier over the subresources
/// `base_mip_level .. base_mip_level + level_count` and
/// `base_array_layer .. base_array_layer + layer_count`.
#[derive(Debug, Clone, Copy, PartialEq, Eq, Structural)]
pub struct TextureBarrierDesc {
    pub old_layout: ImageLayout,
    pub new_layout: ImageLayout,
    pub aspect: ImageAspect,
    pub base_mip_level: u32,
    pub level_count: u32,
    pub base_array_layer: u32,
    pub layer_count: u32,
    pub masks: BarrierMasks,
}

/// A complete buffer memory barrier over `size` bytes from `offset`.
#[derive(Debug, Clone, Copy, PartialEq, Eq, Structural)]
pub struct BufferBarrierDesc {
    pub offset: u64,
    pub size: u64,
    pub masks: BarrierMasks,
}

pub open spec fn masks(src_stage: u32, src_access: u32, dst_stage: u32, dst_access: u32) -> BarrierMasks {
    BarrierMasks { src_stage, src_access, dst_stage, dst_access }
}

/// The stage at which an attachment is written.
pub open spec fn attachment_stage(is_depth: bool) -> u32 {
    if is_depth { STAGE_FRAGMENT_TESTS } else { STAGE_COLOR_ATTACHMENT_OUTPUT }
}

/// The access by which an attachment is written.
pub open spec fn attachment_write(is_depth: bool) -> u32 {
    if is_depth { ACCESS_DEPTH_STENCIL_ATTACHMENT_WRITE } else { ACCESS_COLOR_ATTACHMENT_WRITE }
}

pub open spec fn is_attachment(l: ImageLayout) -> bool {
    l == ImageLayout::ColorAttachment || l == ImageLayout::DepthStencilAttachment
}

/// The barrier scopes of a transition from `old` to `new`; pairs the table does
/// not list fall back to a full barrier over all commands.
pub open spec fn transition_masks(old: ImageLayout, new: ImageLayout, is_depth: bool) -> BarrierMasks {
    let att_stage = attachment_stage(is_depth);
    let att_write = attachment_write(is_depth);
    if (old == ImageLayout::Undefined || old == ImageLayout::PresentSrc) && is_attachment(new) {
        masks(STAGE_TOP_OF_PIPE, ACCESS_NONE, att_stage, att_write)
    } else if is_attachment(old) && new == ImageLayout::PresentSrc {
        masks(att_stage, att_write, STAGE_BOTTOM_OF_PIPE, ACCESS_MEMORY_READ)
    } else if old == ImageLayout::Undefined && new == ImageLayout::TransferDst {
        masks(STAGE_TOP_OF_PIPE, ACCESS_NONE, STAGE_TRANSFER, ACCESS_TRANSFER_WRITE)
    } else if old == ImageLayout::TransferDst && new == ImageLayout::ShaderReadOnly {
        masks(STAGE_TRANSFER, ACCESS_TRANSFER_WRITE, STAGE_ALL_SHADERS, ACCESS_SHADER_READ)
    } else if old == ImageLayout::TransferDst && new == ImageLayout::TransferSrc {
        masks(STAGE_TRANSFER, ACCESS_TRANSFER_WRITE, STAGE_TRANSFER, ACCESS_TRANSFER_READ)
    } else if old == ImageLayout::TransferSrc && new == ImageLayout::ShaderReadOnly {
        masks(STAGE_TRANSFER, ACCESS_TRANSFER_READ, STAGE_ALL_SHADERS, ACCESS_SHADER_READ)
    } else if old == ImageLayout::TransferSrc && new == ImageLayout::TransferDst {
        masks(STAGE_TRANSFER, ACCESS_TRANSFER_READ, STAGE_TRANSFER, ACCESS_TRANSFER_WRITE)
    } else if old == ImageLayout::ShaderReadOnly && is_attachment(new) {
        masks(STAGE_ALL_SHADERS, ACCESS_SHADER_READ, att_stage, att_write)
    } else if is_attachment(old) && new == ImageLayout::ShaderReadOnly {
        masks(att_stage, att_write, STAGE_ALL_SHADERS, ACCESS_SHADER_READ)
    } else if old == ImageLayout::General && new == ImageLayout::ShaderReadOnly {
        masks(STAGE_COMPUTE_SHADER, ACCESS_SHADER_WRITE, STAGE_ALL_SHADERS, ACCESS_SHADER_READ)
    } else if old == ImageLayout::General && is_attachment(new) {
        masks(STAGE_COMPUTE_SHADER, ACCESS_SHADER_WRITE, att_stage, att_write)
    } else if old == ImageLayout::ShaderReadOnly && new == ImageLayout::General {
        masks(STAGE_ALL_SHADERS, ACCESS_SHADER_READ, STAGE_COMPUTE_SHADER, ACCESS_SHADER_WRITE)
    } else if is_attachment(old) && new == ImageLayout::General {
        masks(att_stage, att_write, STAGE_COMPUTE_SHADER, ACCESS_SHADER_WRITE)
    } else if old == ImageLayout::Undefined && new == ImageLayout::General {
        masks(STAGE_TOP_OF_PIPE, ACCESS_NONE, STAGE_COMPUTE_SHADER, ACCESS_SHADER_WRITE)
    } else {
        masks(STAGE_ALL_COMMANDS, ACCESS_MEMORY_READ_WRITE, STAGE_ALL_COMMANDS, ACCESS_MEMORY_READ_WRITE)
    }
}

/// The scopes of a buffer hazard: a compute-shader write made visible to
/// shader reads in the vertex, fragment and compute stages.
pub open spec fn buffer_hazard_masks() -> BarrierMasks {
    masks(STAGE_COMPUTE_SHADER, ACCESS_SHADER_WRITE, STAGE_ALL_SHADERS, ACCESS_SHADER_READ)
}

/// The `VkImageLayout` value of each layout.
pub open spec fn vk_layout_code(l: ImageLayout) -> u32 {
    match l {
        ImageLayout::Undefined => 0,
        ImageLayout::General => 1,
        ImageLayout::ColorAttachment => 2,
        ImageLayout::DepthStencilAttachment => 3,
        ImageLayout::ShaderReadOnly => 5,
        ImageLayout::TransferSrc => 6,
        ImageLayout::TransferDst => 7,
        ImageLayout::PresentSrc => 1000001002,
    }
}

/// The bytes a buffer barrier covers: `size == 0` means "to the end of the
/// buffer"; `None` when that leaves nothing to cover.
pub open spec fn barrier_range(offset: u64, size: u64, buffer_size: u64) -> Option<(u64, u64)> {
    let len = if size == 0 {
        if buffer_size >= offset { (buffer_size - offset) as u64 } else { 0u64 }
    } else {
        size
    };
    if len == 0 { None } else { Some((offset, len)) }
}

/// Stage and access scopes for a transition from `old_layout` to `new_layout`.
/// With `is_depth`, attachment layouts use the depth-test stages and the
/// depth/stencil write access.
pub fn image_barrier_stages_access(old_layout: ImageLayout, new_layout: ImageLayout, is_depth: bool) -> (r: BarrierMasks)
    ensures
        r == transition_masks(old_layout, new_layout, is_depth),
{
    let att_stage = if is_depth { STAGE_FRAGMENT_TESTS } else { STAGE_COLOR_ATTACHMENT_OUTPUT };
    let att_write = if is_depth { ACCESS_DEPTH_STENCIL_ATTACHMENT_WRITE } else { ACCESS_COLOR_ATTACHMENT_WRITE };
    let new_is_attachment = matches!(new_layout, ImageLayout::ColorAttachment | ImageLayout::DepthStencilAttachment);
    let from_fresh = matches!(old_layout, ImageLayout::Undefined | ImageLayout::PresentSrc);
    let (src_stage, src_access, dst_stage, dst_access) = if from_fresh && new_is_attachment {
        (STAGE_TOP_OF_PIPE, ACCESS_NONE, att_stage, att_write)
    } else {
        match old_layout {
            ImageLayout::ColorAttachment | ImageLayout::DepthStencilAttachment => match new_layout {
                ImageLayout::PresentSrc => (att_stage, att_write, STAGE_BOTTOM_OF_PIPE, ACCESS_MEMORY_READ),
                ImageLayout::ShaderReadOnly => (att_stage, att_write, STAGE_ALL_SHADERS, ACCESS_SHADER_READ),
                ImageLayout::General => (att_stage, att_write, STAGE_COMPUTE_SHADER, ACCESS_SHADER_WRITE),
                _ => (STAGE_ALL_COMMANDS, ACCESS_MEMORY_READ_WRITE, STAGE_ALL_COMMANDS, ACCESS_MEMORY_READ_WRITE),
            },
            ImageLayout::Undefined => match new_layout {
                ImageLayout::TransferDst => (STAGE_TOP_OF_PIPE, ACCESS_NONE, STAGE_TRANSFER, ACCESS_TRANSFER_WRITE),
                ImageLayout::General => (STAGE_TOP_OF_PIPE, ACCESS_NONE, STAGE_COMPUTE_SHADER, ACCESS_SHADER_WRITE),
                _ => (STAGE_ALL_COMMANDS, ACCESS_MEMORY_READ_WRITE, STAGE_ALL_COMMANDS, ACCESS_MEMORY_READ_WRITE),
            },
            ImageLayout::TransferDst => match new_layout {
                ImageLayout::ShaderReadOnly => (STAGE_TRANSFER, ACCESS_TRANSFER_WRITE, STAGE_ALL_SHADERS, ACCESS_SHADER_READ),
                ImageLayout::TransferSrc => (STAGE_TRANSFER, ACCESS_TRANSFER_WRITE, STAGE_TRANSFER, ACCESS_TRANSFER_READ),
                _ => (STAGE_ALL_COMMANDS, ACCESS_MEMORY_READ_WRITE, STAGE_ALL_COMMANDS, ACCESS_MEMORY_READ_WRITE),
            },
            ImageLayout::TransferSrc => match new_layout {
                ImageLayout::ShaderReadOnly => (STAGE_TRANSFER, ACCESS_TRANSFER_READ, STAGE_ALL_SHADERS, ACCESS_SHADER_READ),
                ImageLayout::TransferDst => (STAGE_TRANSFER, ACCESS_TRANSFER_READ, STAGE_TRANSFER, ACCESS_TRANSFER_WRITE),
                _ => (STAGE_ALL_COMMANDS, ACCESS_MEMORY_READ_WRITE, STAGE_ALL_COMMANDS, ACCESS_MEMORY_READ_WRITE),
            },
            ImageLayout::ShaderReadOnly if new_is_attachment => {
                (STAGE_ALL_SHADERS, ACCESS_SHADER_READ, att_stage, att_write)
            },
            ImageLayout::ShaderReadOnly if new_layout == ImageLayout::General => {
                (STAGE_ALL_SHADERS, ACCESS_SHADER_READ, STAGE_COMPUTE_SHADER, ACCESS_SHADER_WRITE)
            },
            ImageLayout::General if new_is_attachment => {
                (STAGE_COMPUTE_SHADER, ACCESS_SHADER_WRITE, att_stage, att_write)
            },
            ImageLayout::General if new_layout == ImageLayout::ShaderReadOnly => {
                (STAGE_COMPUTE_SHADER, ACCESS_SHADER_WRITE, STAGE_ALL_SHADERS, ACCESS_SHADER_READ)
            },
            _ => (STAGE_ALL_COMMANDS, ACCESS_MEMORY_READ_WRITE, STAGE_ALL_COMMANDS, ACCESS_MEMORY_READ_WRITE),
        }
    };
    BarrierMasks { src_stage, src_access, dst_stage, dst_access }
}

/// The value a Vulkan backend passes as the image layout `l`.
pub fn image_layout_code(l: ImageLayout) -> (r: u32)
    ensures
        r == vk_layout_code(l),
{
    match l {
        ImageLayout::Undefined => 0,
        ImageLayout::General => 1,
        ImageLayout::ColorAttachment => 2,
        ImageLayout::DepthStencilAttachment => 3,
        ImageLayout::ShaderReadOnly => 5,
        ImageLayout::TransferSrc => 6,
        ImageLayout::TransferDst => 7,
        ImageLayout::PresentSrc => 1000001002,
    }
}

/// Stage and access scopes of a buffer hazard barrier.
pub fn buffer_barrier_stages_access() -> (r: BarrierMasks)
    ensures
        r == buffer_hazard_masks(),
{
    BarrierMasks {
        src_stage: STAGE_COMPUTE_SHADER,
        src_access: ACCESS_SHADER_WRITE,
        dst_stage: STAGE_ALL_SHADERS,
        dst_access: ACCESS_SHADER_READ,
    }
}

/// The barrier a backend records to move a texture of `format` from
/// `old_layout` to `new_layout`: depth formats get the depth aspect and the
/// depth-test scopes. The barrier covers the first mip level of the first
/// array layer.
pub fn texture_barrier_desc(old_layout: ImageLayout, new_layout: ImageLayout, format: TextureFormat) -> (r: TextureBarrierDesc)
    ensures
        r.old_layout == old_layout,
        r.new_layout == new_layout,
        r.aspect == (if is_depth_format(format) { ImageAspect::Depth } else { ImageAspect::Color }),
        r.base_mip_level == 0 && r.level_count == 1,
        r.base_array_layer == 0 && r.layer_count == 1,
        r.masks == transition_masks(old_layout, new_layout, is_depth_format(format)),
{
    let is_depth = format_is_depth(format);
    let aspect = if is_depth { ImageAspect::Depth } else { ImageAspect::Color };
    TextureBarrierDesc {
        old_layout,
        new_layout,
        aspect,
        base_mip_level: 0,
        level_count: 1,
        base_array_layer: 0,
        layer_count: 1,
        masks: image_barrier_stages_access(old_layout, new_layout, is_depth),
    }
}

/// The barrier a backend records for a buffer hazard on `size` bytes from
/// `offset` of a buffer of `buffer_size` bytes (`size == 0`: to the end of the
/// buffer); `None` when the range is empty and no barrier is needed.
pub fn buffer_barrier_desc(offset: u64, size: u64, buffer_size: u64) -> (r: Option<BufferBarrierDesc>)
    ensures
        r matches Some(d) ==> barrier_range(offset, size, buffer_size) == Some((d.offset, d.size))
            && d.masks == buffer_hazard_masks(),
        r is None <==> barrier_range(offset, size, buffer_size) is None,
{
    let len = if size == 0 { buffer_size.saturating_sub(offset) } else { size };
    if len == 0 {
        None
    } else {
        Some(BufferBarrierDesc { offset, size: len, masks: buffer_barrier_stages_access() })
    }
}

} // verus!

use lume_graph::rhi::{
    format_is_depth, BufferDescriptor, BufferMemoryPreference, BufferUsage, ImageLayout, TextureDescriptor,
    TextureDimension, TextureFormat, TextureUsage, BUFFER_USAGE_VERTEX,
};
use lume_graph::sync::{
    buffer_barrier_desc, buffer_barrier_stages_access, image_barrier_stages_access, image_layout_code, texture_barrier_desc,
    BarrierMasks,
    ImageAspect,
};

fn m(src_stage: u32, src_access: u32, dst_stage: u32, dst_access: u32) -> BarrierMasks {
    BarrierMasks { src_stage, src_access, dst_stage, dst_access }
}

const SHADERS: u32 = 0x8 | 0x80 | 0x800;

#[test]
fn fresh_image_to_attachment() {
    assert_eq!(
        image_barrier_stages_access(ImageLayout::Undefined, ImageLayout::ColorAttachment, false),
        m(0x1, 0, 0x400, 0x100)
    );
    assert_eq!(
        image_barrier_stages_access(ImageLayout::PresentSrc, ImageLayout::DepthStencilAttachment, true),
        m(0x1, 0, 0x100 | 0x200, 0x400)
    );
}

#[test]
fn attachment_to_present() {
    assert_eq!(
        image_barrier_stages_access(ImageLayout::ColorAttachment, ImageLayout::PresentSrc, false),
        m(0x400, 0x100, 0x2000, 0x8000)
    );
}

#[test]
fn transfer_transitions() {
    assert_eq!(
        image_barrier_stages_access(ImageLayout::Undefined, ImageLayout::TransferDst, false),
        m(0x1, 0, 0x1000, 0x1000)
    );
    assert_eq!(
        image_barrier_stages_access(ImageLayout::TransferDst, ImageLayout::ShaderReadOnly, false),
        m(0x1000, 0x1000, SHADERS, 0x20)
    );
    assert_eq!(
        image_barrier_stages_access(ImageLayout::TransferDst, ImageLayout::TransferSrc, false),
        m(0x1000, 0x1000, 0x1000, 0x800)
    );
    assert_eq!(
        image_barrier_stages_access(ImageLayout::TransferSrc, ImageLayout::TransferDst, false),
        m(0x1000, 0x800, 0x1000, 0x1000)
    );
    assert_eq!(
        image_barrier_stages_access(ImageLayout::TransferSrc, ImageLayout::ShaderReadOnly, false),
        m(0x1000, 0x800, SHADERS, 0x20)
    );
}

#[test]
fn shader_read_and_attachment_transitions() {
    assert_eq!(
        image_barrier_stages_access(ImageLayout::ShaderReadOnly, ImageLayout::ColorAttachment, false),
        m(SHADERS, 0x20, 0x400, 0x100)
    );
    assert_eq!(
        image_barrier_stages_access(ImageLayout::ColorAttachment, ImageLayout::ShaderReadOnly, false),
        m(0x400, 0x100, SHADERS, 0x20)
    );
    assert_eq!(
        image_barrier_stages_access(ImageLayout::DepthStencilAttachment, ImageLayout::ShaderReadOnly, true),
        m(0x300, 0x400, SHADERS, 0x20)
    );
}

#[test]
fn general_transitions() {
    assert_eq!(
        image_barrier_stages_access(ImageLayout::General, ImageLayout::ShaderReadOnly, false),
        m(0x800, 0x40, SHADERS, 0x20)
    );
    assert_eq!(
        image_barrier_stages_access(ImageLayout::General, ImageLayout::ColorAttachment, false),
        m(0x800, 0x40, 0x400, 0x100)
    );
    assert_eq!(
        image_barrier_stages_access(ImageLayout::ShaderReadOnly, ImageLayout::General, false),
        m(SHADERS, 0x20, 0x800, 0x40)
    );
    assert_eq!(
        image_barrier_stages_access(ImageLayout::ColorAttachment, ImageLayout::General, false),
        m(0x400, 0x100, 0x800, 0x40)
    );
    assert_eq!(
        image_barrier_stages_access(ImageLayout::Undefined, ImageLayout::General, false),
        m(0x1, 0, 0x800, 0x40)
    );
}

#[test]
fn unlisted_transition_falls_back_to_full_barrier() {
    let full = m(0x10000, 0x8000 | 0x10000, 0x10000, 0x8000 | 0x10000);
    assert_eq!(image_barrier_stages_access(ImageLayout::ShaderReadOnly, ImageLayout::TransferDst, false), full);
    assert_eq!(image_barrier_stages_access(ImageLayout::PresentSrc, ImageLayout::ShaderReadOnly, false), full);
    assert_eq!(image_barrier_stages_access(ImageLayout::Undefined, ImageLayout::ShaderReadOnly, true), full);
}

#[test]
fn buffer_hazard_scopes() {
    assert_eq!(buffer_barrier_stages_access(), m(0x800, 0x40, SHADERS, 0x20));
}

#[test]
fn buffer_barrier_range() {
    let d = buffer_barrier_desc(16, 0, 64).expect("non-empty");
    assert_eq!((d.offset, d.size), (16, 48));
    let d = buffer_barrier_desc(0, 8, 64).expect("non-empty");
    assert_eq!((d.offset, d.size), (0, 8));
    assert_eq!(d.masks, buffer_barrier_stages_access());
    assert!(buffer_barrier_desc(64, 0, 64).is_none());
    assert!(buffer_barrier_desc(100, 0, 64).is_none());
}

#[test]
fn texture_barrier_aspect_follows_format() {
    let d = texture_barrier_desc(ImageLayout::Undefined, ImageLayout::DepthStencilAttachment, TextureFormat::D32Float);
    assert_eq!(d.aspect, ImageAspect::Depth);
    assert_eq!(d.masks, m(0x1, 0, 0x300, 0x400));
    let c = texture_barrier_desc(ImageLayout::Undefined, ImageLayout::ColorAttachment, TextureFormat::Bgra8Unorm);
    assert_eq!(c.aspect, ImageAspect::Color);
    assert_eq!(c.old_layout, ImageLayout::Undefined);
    assert_eq!(c.new_layout, ImageLayout::ColorAttachment);
    assert_eq!(c.masks, m(0x1, 0, 0x400, 0x100));
    assert_eq!((c.base_mip_level, c.level_count, c.base_array_layer, c.layer_count), (0, 1, 0, 1));
}

#[test]
fn layout_codes_follow_vulkan() {
    assert_eq!(image_layout_code(ImageLayout::Undefined), 0);
    assert_eq!(image_layout_code(ImageLayout::General), 1);
    assert_eq!(image_layout_code(ImageLayout::ColorAttachment), 2);
    assert_eq!(image_layout_code(ImageLayout::DepthStencilAttachment), 3);
    assert_eq!(image_layout_code(ImageLayout::ShaderReadOnly), 5);
    assert_eq!(image_layout_code(ImageLayout::TransferSrc), 6);
    assert_eq!(image_layout_code(ImageLayout::TransferDst), 7);
    assert_eq!(image_layout_code(ImageLayout::PresentSrc), 1000001002);
}

#[test]
fn only_d32_is_depth() {
    assert!(format_is_depth(TextureFormat::D32Float));
    assert!(!format_is_depth(TextureFormat::Rgba8Unorm));
    assert!(!format_is_depth(TextureFormat::R32Float));
}

#[test]
fn descriptor_defaults() {
    let b = BufferDescriptor::default();
    assert!(b.label.is_none());
    assert_eq!(b.size, 0);
    assert_eq!(b.usage, BufferUsage(BUFFER_USAGE_VERTEX));
    assert_eq!(b.memory, BufferMemoryPreference::HostVisible);
    let t = TextureDescriptor::default();
    assert_eq!(t.size, (1, 1, 1));
    assert_eq!(t.format, TextureFormat::Rgba8Unorm);
    assert_eq!(t.usage, TextureUsage(0));
    assert_eq!(t.dimension, TextureDimension::D2);
    assert_eq!(t.mip_level_count, 1);
}

//! Backend-agnostic rendering hardware interface: the resource, pipeline and
//! recording vocabulary that the render graph and its backends share.
use vstd::prelude::*;

verus! {

/// Unique identifier a backend gives to a GPU resource.
pub type GpuResourceId = u64;

/// Buffer usage flags (`BUFFER_USAGE_*` bits); combine bits for buffers used in several ways.
#[derive(Debug, Clone, Copy, PartialEq, Eq)]
pub struct BufferUsage(pub u32);

pub const BUFFER_USAGE_VERTEX: u32 = 1;
pub const BUFFER_USAGE_INDEX: u32 = 2;
pub const BUFFER_USAGE_UNIFORM: u32 = 4;
pub const BUFFER_USAGE_STORAGE: u32 = 8;
pub const BUFFER_USAGE_COPY_SRC: u32 = 16;
pub const BUFFER_USAGE_COPY_DST: u32 = 32;
pub const BUFFER_USAGE_INDIRECT: u32 = 64;

/// Texture usage flags (`TEXTURE_USAGE_*` bits).
#[derive(Debug, Clone, Copy, PartialEq, Eq, PartialOrd, Ord, Hash)]
pub struct TextureUsage(pub u32);

pub const TEXTURE_USAGE_COPY_SRC: u32 = 1;
pub const TEXTURE_USAGE_COPY_DST: u32 = 2;
pub const TEXTURE_USAGE_TEXTURE_BINDING: u32 = 4;
pub const TEXTURE_USAGE_STORAGE_BINDING: u32 = 8;
pub const TEXTURE_USAGE_RENDER_ATTACHMENT: u32 = 16;

/// Shader stages a descriptor binding is visible to (`SHADER_STAGE_*` bits).
#[derive(Debug, Clone, Copy, PartialEq, Eq)]
pub struct ShaderStages(pub u32);

pub const SHADER_STAGE_VERTEX: u32 = 1;
pub const SHADER_STAGE_FRAGMENT: u32 = 2;
pub const SHADER_STAGE_COMPUTE: u32 = 4;

#[derive(Debug, Clone, Copy, PartialEq, Eq, Hash)]
pub enum TextureFormat {
    Rgba8Unorm,
    Bgra8Unorm,
    R32Float,
    Rgba16Float,
    D32Float,
    R16Float,
    Rgba32Float,
}

/// Texture dimension / type.
#[derive(Debug, Clone, Copy, PartialEq, Eq, Default)]
pub enum TextureDimension {
    #[default]
    D2,
    D2Array,
    D3,
    Cube,
}

/// Where a buffer lives: host-visible (mappable) or device-local.
#[derive(Debug, Clone, Copy, PartialEq, Eq, Default)]
pub enum BufferMemoryPreference {
    #[default]
    HostVisible,
    DeviceLocal,
}

#[derive(Debug, Clone)]
pub struct BufferDescriptor {
    pub label: Option<&'static str>,
    pub size: u64,
    pub usage: BufferUsage,
    pub memory: BufferMemoryPreference,
}

impl Default for BufferDescriptor {
    /// An empty host-visible vertex buffer.
    fn default() -> (r: Self)
        ensures
            r.label is None,
            r.size == 0,
            r.usage == BufferUsage(BUFFER_USAGE_VERTEX),
            r.memory == BufferMemoryPreference::HostVisible,
    {
        BufferDescriptor {
            label: None,
            size: 0,
            usage: BufferUsage(BUFFER_USAGE_VERTEX),
            memory: BufferMemoryPreference::HostVisible,
        }
    }
}

#[derive(Debug, Clone, Copy)]
pub struct TextureDescriptor {
    pub label: Option<&'static str>,
    /// (width, height, depth_or_layers).
    pub size: (u32, u32, u32),
    pub format: TextureFormat,
    pub usage: TextureUsage,
    pub dimension: TextureDimension,
    pub mip_level_count: u32,
}

impl Default for TextureDescriptor {
    /// A single-texel 2D RGBA8 texture with one mip level and no usage.
    fn default() -> (r: Self)
        ensures
            r.label is None,
            r.size == (1u32, 1u32, 1u32),
            r.format == TextureFormat::Rgba8Unorm,
            r.usage == TextureUsage(0),
            r.dimension == TextureDimension::D2,
            r.mip_level_count == 1,
    {
        TextureDescriptor {
            label: None,
            size: (1, 1, 1),
            format: TextureFormat::Rgba8Unorm,
            usage: TextureUsage(0),
            dimension: TextureDimension::D2,
            mip_level_count: 1,
        }
    }
}

/// Filter mode for sampler min/mag.
#[derive(Debug, Clone, Copy, PartialEq, Eq, Default)]
pub enum FilterMode {
    #[default]
    Nearest,
    Linear,
}

/// Address mode for sampler U/V/W.
#[derive(Debug, Clone, Copy, PartialEq, Eq, Default)]
pub enum AddressMode {
    #[default]
    Repeat,
    MirroredRepeat,
    ClampToEdge,
    ClampToBorder,
}

#[derive(Debug, Clone, Default)]
pub struct ComputePipelineDescriptor {
    pub label: Option<&'static str>,
    /// SPIR-V binary (little-endian, 4-byte aligned).
    pub shader_source: Vec<u8>,
    pub entry_point: String,
    pub layout_bindings: Vec<DescriptorSetLayoutBinding>,
}

/// Descriptor for creating a graphics pipeline (vertex + fragment).
#[derive(Debug, Clone)]
pub struct GraphicsPipelineDescriptor {
    pub label: Option<&'static str>,
    pub vertex_shader: ShaderStage,
    pub fragment_shader: Option<ShaderStage>,
    pub vertex_input: VertexInputDescriptor,
    pub primitive_topology: PrimitiveTopology,
    pub rasterization: RasterizationState,
    pub color_targets: Vec<ColorTargetState>,
    pub depth_stencil: Option<DepthStencilState>,
    pub layout_bindings: Vec<DescriptorSetLayoutBinding>,
}

#[derive(Debug, Clone)]
pub struct ShaderStage {
    /// SPIR-V bytes.
    pub source: Vec<u8>,
    pub entry_point: String,
}

#[derive(Debug, Clone, Default)]
pub struct VertexInputDescriptor {
    pub attributes: Vec<VertexAttribute>,
    pub bindings: Vec<VertexBinding>,
}

#[derive(Debug, Clone)]
pub struct VertexAttribute {
    pub location: u32,
    pub binding: u32,
    pub format: VertexFormat,
    pub offset: u32,
}

#[derive(Debug, Clone)]
pub struct VertexBinding {
    pub binding: u32,
    pub stride: u32,
    pub input_rate: VertexInputRate,
}

#[derive(Debug, Clone, Copy, PartialEq, Eq)]
pub enum VertexInputRate {
    Vertex,
    Instance,
}

#[derive(Debug, Clone, Copy, PartialEq, Eq, Default)]
pub enum VertexFormat {
    #[default]
    Float32x3,
    Float32x2,
    Float32x4,
    Uint32,
}

#[derive(Debug, Clone, Copy, PartialEq, Eq, Default)]
pub enum PrimitiveTopology {
    #[default]
    TriangleList,
    TriangleStrip,
    LineList,
    PointList,
}

#[derive(Debug, Clone, Default)]
pub struct RasterizationState {
    pub cull_mode: CullMode,
    pub front_face: FrontFace,
    pub polygon_mode: PolygonMode,
}

#[derive(Debug, Clone, Copy, PartialEq, Eq, Default)]
pub enum CullMode {
    /// No face is culled.
    Disabled,
    #[default]
    Back,
    Front,
    FrontAndBack,
}

#[derive(Debug, Clone, Copy, PartialEq, Eq, Default)]
pub enum FrontFace {
    #[default]
    CounterClockwise,
    Clockwise,
}

#[derive(Debug, Clone, Copy, PartialEq, Eq, Default)]
pub enum PolygonMode {
    #[default]
    Fill,
    Line,
    Point,
}

/// Color attachment state for a graphics pipeline. `None` load/store ops
/// leave the backend's default (clear / store).
#[derive(Debug, Clone)]
pub struct ColorTargetState {
    pub format: TextureFormat,
    pub blend: Option<BlendState>,
    pub load_op: Option<LoadOp>,
    pub store_op: Option<StoreOp>,
}

#[derive(Debug, Clone)]
pub struct BlendState {
    pub color: BlendComponent,
    pub alpha: BlendComponent,
}

#[derive(Debug, Clone, Copy)]
pub struct BlendComponent {
    pub src_factor: BlendFactor,
    pub dst_factor: BlendFactor,
    pub operation: BlendOp,
}

#[derive(Debug, Clone, Copy)]
pub enum BlendFactor {
    One,
    Zero,
    SrcAlpha,
    OneMinusSrcAlpha,
    DstAlpha,
    OneMinusDstAlpha,
}

#[derive(Debug, Clone, Copy)]
pub enum BlendOp {
    Add,
    Subtract,
}

/// Depth/stencil attachment state for a graphics pipeline.
#[derive(Debug, Clone)]
pub struct DepthStencilState {
    pub format: TextureFormat,
    pub depth_write_enabled: bool,
    pub depth_compare: CompareOp,
    pub depth_load_op: Option<LoadOp>,
    pub depth_store_op: Option<StoreOp>,
}

#[derive(Debug, Clone, Copy, PartialEq, Eq)]
pub enum CompareOp {
    Never,
    Less,
    Equal,
    LessOrEqual,
    Greater,
    NotEqual,
    GreaterOrEqual,
    Always,
}

#[derive(Debug, Clone, Copy, PartialEq, Eq, Hash)]
pub enum LoadOp {
    Load,
    Clear,
}

#[derive(Debug, Clone, Copy, PartialEq, Eq, Hash)]
pub enum StoreOp {
    Store,
    DontCare,
}

/// Abstract image layout of a texture, tracked by the render graph.
#[derive(Debug, Clone, Copy, PartialEq, Eq, Hash, Structural)]
pub enum ImageLayout {
    Undefined,
    TransferDst,
    TransferSrc,
    ShaderReadOnly,
    ColorAttachment,
    DepthStencilAttachment,
    General,
    /// For swapchain images before present.
    PresentSrc,
}

#[derive(Debug, Clone, Copy, PartialEq, Eq)]
pub enum IndexFormat {
    Uint16,
    Uint32,
}

/// Descriptor binding type for a layout.
#[derive(Debug, Clone, Copy, PartialEq, Eq)]
pub enum DescriptorType {
    UniformBuffer,
    StorageBuffer,
    StorageImage,
    SampledImage,
    CombinedImageSampler,
}

#[derive(Debug, Clone)]
pub struct DescriptorSetLayoutBinding {
    pub binding: u32,
    pub descriptor_type: DescriptorType,
    pub count: u32,
    pub stages: ShaderStages,
}

/// Descriptor pool capacities; an empty `pool_sizes` lets the backend pick defaults.
#[derive(Debug, Clone, Default)]
pub struct DescriptorPoolDescriptor {
    pub max_sets: u32,
    pub pool_sizes: Vec<(DescriptorType, u32)>,
}

/// A GPU buffer created by a backend.
pub trait Buffer {
    fn id(&self) -> GpuResourceId;

    fn size(&self) -> u64;

    /// True when the buffer is mappable from the host.
    fn host_visible(&self) -> bool;
}

/// A GPU texture created by a backend.
pub trait Texture {
    fn id(&self) -> GpuResourceId;

    fn format(&self) -> TextureFormat;

    fn size(&self) -> (u32, u32, u32);

    fn dimension(&self) -> TextureDimension;

    fn mip_level_count(&self) -> u32;
}

/// A finished, submittable command buffer.
pub trait CommandBuffer {
}

/// Records GPU commands; the render graph uses it for its barriers.
pub trait CommandEncoder {
    /// Insert a pipeline barrier that moves `texture` from `old_layout` to `new_layout`.
    fn pipeline_barrier_texture(
        &mut self,
        texture: &dyn Texture,
        old_layout: ImageLayout,
        new_layout: ImageLayout,
    );

    /// Insert a shader-write to shader-read barrier on a byte range of `buffer`.
    fn pipeline_barrier_buffer(&mut self, buffer: &dyn Buffer, offset: u64, size: u64);

    fn finish(self: Box<Self>) -> Result<Box<dyn CommandBuffer>, String>;
}

/// The device capability the render graph consumes.
pub trait Device {
    /// Open a fresh command recording scope.
    fn create_command_encoder(&self) -> Result<Box<dyn CommandEncoder>, String>;
}

/// True when `format` is a depth format.
pub open spec fn is_depth_format(format: TextureFormat) -> bool {
    format == TextureFormat::D32Float
}

pub fn format_is_depth(format: TextureFormat) -> (r: bool)
    ensures
        r == is_depth_format(format),
{
    match format {
        TextureFormat::D32Float => true,
        _ => false,
    }
}

} // verus!

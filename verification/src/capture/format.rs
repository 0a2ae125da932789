//! The texture formats the simulator renders to, and how their texels are laid out for copies.
use vstd::prelude::*;
use wgpu::TextureFormat as GpuFormat;

verus! {

/// A texture format that a capture target, a view copy or the upscaler can have.
#[derive(Clone, Copy, Debug, PartialEq, Eq, Structural)]
pub enum TextureFormat {
    Rgba8Unorm,
    Rgba8UnormSrgb,
    Bgra8Unorm,
    Bgra8UnormSrgb,
    Rgba16Float,
    Rg16Float,
    R32Uint,
    R32Float,
    Depth16Unorm,
    Depth24Plus,
    Depth24PlusStencil8,
    Depth32Float,
    Depth32FloatStencil8,
}

/// Which part of a texture a copy reads.
#[derive(Clone, Copy, Debug, PartialEq, Eq, Structural)]
pub enum TextureAspect {
    All,
    DepthOnly,
}

/// The row alignment in bytes that texture-to-buffer copies require.
pub const COPY_BYTES_PER_ROW_ALIGNMENT: usize = 256;

impl TextureFormat {
    /// Whether the format holds depth.
    pub open spec fn is_depth_spec(self) -> bool {
        self is Depth16Unorm || self is Depth24Plus || self is Depth24PlusStencil8
            || self is Depth32Float || self is Depth32FloatStencil8
    }

    /// The bytes one texel takes in a copy of the whole texture, where such a copy exists.
    pub open spec fn copy_size_spec(self) -> Option<u32> {
        match self {
            TextureFormat::Depth24Plus
            | TextureFormat::Depth24PlusStencil8
            | TextureFormat::Depth32FloatStencil8 => None,
            TextureFormat::Depth16Unorm => Some(2),
            TextureFormat::Rgba16Float => Some(8),
            _ => Some(4),
        }
    }

    /// Whether the format holds depth.
    pub fn is_depth(self) -> (r: bool)
        ensures
            r == self.is_depth_spec(),
    {
        match self {
            TextureFormat::Depth16Unorm
            | TextureFormat::Depth24Plus
            | TextureFormat::Depth24PlusStencil8
            | TextureFormat::Depth32Float
            | TextureFormat::Depth32FloatStencil8 => true,
            _ => false,
        }
    }

    /// The size of a texel in bytes. Only a format whose whole texture can be copied has one to
    /// ask for.
    pub fn pixel_size(self) -> (r: usize)
        requires
            self.copy_size_spec() is Some,
        ensures
            r == self.copy_size_spec()->0,
    {
        block_copy_size(self).unwrap() as usize
    }
}

/// `wgpu::TextureFormat::block_dimensions`: the texels that one block of the format spans. None of
/// the formats here is compressed, so a block is always a single texel.
#[verifier::external_body]
pub(crate) fn block_dimensions(format: TextureFormat) -> (r: (u32, u32))
    ensures
        r == (1u32, 1u32),
{
    match format {
        TextureFormat::Rgba8Unorm => GpuFormat::Rgba8Unorm,
        TextureFormat::Rgba8UnormSrgb => GpuFormat::Rgba8UnormSrgb,
        TextureFormat::Bgra8Unorm => GpuFormat::Bgra8Unorm,
        TextureFormat::Bgra8UnormSrgb => GpuFormat::Bgra8UnormSrgb,
        TextureFormat::Rgba16Float => GpuFormat::Rgba16Float,
        TextureFormat::Rg16Float => GpuFormat::Rg16Float,
        TextureFormat::R32Uint => GpuFormat::R32Uint,
        TextureFormat::R32Float => GpuFormat::R32Float,
        TextureFormat::Depth16Unorm => GpuFormat::Depth16Unorm,
        TextureFormat::Depth24Plus => GpuFormat::Depth24Plus,
        TextureFormat::Depth24PlusStencil8 => GpuFormat::Depth24PlusStencil8,
        TextureFormat::Depth32Float => GpuFormat::Depth32Float,
        TextureFormat::Depth32FloatStencil8 => GpuFormat::Depth32FloatStencil8,
    }.block_dimensions()
}

/// `wgpu::TextureFormat::block_copy_size` with no aspect chosen: the bytes one block of the format
/// takes in a copy. There is none for `Depth24Plus`, nor for a format that combines depth and
/// stencil.
#[verifier::external_body]
pub(crate) fn block_copy_size(format: TextureFormat) -> (r: Option<u32>)
    ensures
        r == format.copy_size_spec(),
{
    match format {
        TextureFormat::Rgba8Unorm => GpuFormat::Rgba8Unorm,
        TextureFormat::Rgba8UnormSrgb => GpuFormat::Rgba8UnormSrgb,
        TextureFormat::Bgra8Unorm => GpuFormat::Bgra8Unorm,
        TextureFormat::Bgra8UnormSrgb => GpuFormat::Bgra8UnormSrgb,
        TextureFormat::Rgba16Float => GpuFormat::Rgba16Float,
        TextureFormat::Rg16Float => GpuFormat::Rg16Float,
        TextureFormat::R32Uint => GpuFormat::R32Uint,
        TextureFormat::R32Float => GpuFormat::R32Float,
        TextureFormat::Depth16Unorm => GpuFormat::Depth16Unorm,
        TextureFormat::Depth24Plus => GpuFormat::Depth24Plus,
        TextureFormat::Depth24PlusStencil8 => GpuFormat::Depth24PlusStencil8,
        TextureFormat::Depth32Float => GpuFormat::Depth32Float,
        TextureFormat::Depth32FloatStencil8 => GpuFormat::Depth32FloatStencil8,
    }.block_copy_size(None)
}

/// The smallest multiple of the copy alignment that holds `row_bytes` bytes.
pub open spec fn aligned_row(row_bytes: int) -> int {
    (row_bytes + 255) / 256 * 256
}

/// Rounds a row up to the alignment that texture-to-buffer copies require.
pub fn align_copy_bytes_per_row(row_bytes: usize) -> (r: usize)
    requires
        row_bytes + 255 <= usize::MAX,
    ensures
        r == aligned_row(row_bytes as int),
        row_bytes <= r < row_bytes + COPY_BYTES_PER_ROW_ALIGNMENT,
        r % COPY_BYTES_PER_ROW_ALIGNMENT == 0,
{
    (row_bytes + (COPY_BYTES_PER_ROW_ALIGNMENT - 1)) / COPY_BYTES_PER_ROW_ALIGNMENT
        * COPY_BYTES_PER_ROW_ALIGNMENT
}

/// The part of a texture that a capture of it copies: depth where there is depth, else everything.
pub fn capture_texture_aspect(format: TextureFormat) -> (r: TextureAspect)
    ensures
        r == (if format.is_depth_spec() {
            TextureAspect::DepthOnly
        } else {
            TextureAspect::All
        }),
{
    if format.is_depth() {
        TextureAspect::DepthOnly
    } else {
        TextureAspect::All
    }
}

} // verus!

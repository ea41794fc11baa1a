//! Image asset data: the texel payload of an image and how it is stored.
use crate::texture::RafxError;
use vstd::prelude::*;
use vstd::slice::slice_to_vec;

verus! {

/// The color space an image asset is authored in.
#[derive(Clone, Copy, Debug, PartialEq, Eq, Structural)]
pub enum ImageAssetColorSpaceConfig {
    Srgb,
    Linear,
}

/// How the mip levels of an image asset come about.
#[derive(Clone, Copy, Debug, PartialEq, Eq, Structural)]
pub enum ImageAssetMipGeneration {
    NoMips,
    Precomupted,
    Runtime,
}

/// The color space of image data uploaded to the GPU.
#[derive(Clone, Copy, Debug, PartialEq, Eq, Structural)]
pub enum GpuImageDataColorSpace {
    Srgb,
    Linear,
}

/// The GPU color space of an asset color space.
pub open spec fn gpu_color_space(c: ImageAssetColorSpaceConfig) -> GpuImageDataColorSpace {
    match c {
        ImageAssetColorSpaceConfig::Srgb => GpuImageDataColorSpace::Srgb,
        ImageAssetColorSpaceConfig::Linear => GpuImageDataColorSpace::Linear,
    }
}

impl From<ImageAssetColorSpaceConfig> for GpuImageDataColorSpace {
    fn from(c: ImageAssetColorSpaceConfig) -> (r: GpuImageDataColorSpace) {
        match c {
            ImageAssetColorSpaceConfig::Srgb => GpuImageDataColorSpace::Srgb,
            ImageAssetColorSpaceConfig::Linear => GpuImageDataColorSpace::Linear,
        }
    }
}

impl vstd::std_specs::convert::FromSpecImpl<ImageAssetColorSpaceConfig> for GpuImageDataColorSpace {
    open spec fn obeys_from_spec() -> bool {
        true
    }

    open spec fn from_spec(c: ImageAssetColorSpaceConfig) -> GpuImageDataColorSpace {
        gpu_color_space(c)
    }
}

/// The kind of Basis Universal compression.
#[derive(Clone, Copy, Debug, PartialEq, Eq, Structural)]
pub enum ImageAssetBasisCompressionType {
    Etc1S,
    Uastc,
}

/// Basis Universal compression: its kind and quality level.
#[derive(Clone, Copy, Debug, PartialEq, Eq, Structural)]
pub struct ImageAssetBasisCompressionSettings {
    pub compression_type: ImageAssetBasisCompressionType,
    pub quality: u32,
}

/// The stored format of an image asset.
#[allow(non_camel_case_types)]
#[derive(Clone, Copy, Debug, PartialEq, Eq, Structural)]
pub enum ImageAssetDataFormat {
    RGBA32_Linear,
    RGBA32_Srgb,
    Basis_Linear,
    Basis_Srgb,
    BC1_UNorm_Linear,
    BC1_UNorm_Srgb,
    BC2_UNorm_Linear,
    BC2_UNorm_Srgb,
    BC3_UNorm_Linear,
    BC3_UNorm_Srgb,
    BC4_UNorm,
    BC4_SNorm,
    BC5_UNorm,
    BC5_SNorm,
    BC6H_UFloat,
    BC6H_SFloat,
    BC7_Unorm_Linear,
    BC7_Unorm_Srgb,
}

/// Whether an image asset is stored uncompressed or Basis-compressed.
#[derive(Clone, Copy, Debug, PartialEq, Eq, Structural)]
pub enum ImageAssetDataFormatConfig {
    Uncompressed,
    BasisCompressed(ImageAssetBasisCompressionSettings),
}

/// The texels of one mip level.
pub struct ImageAssetDataMipLevel {
    pub width: u32,
    pub height: u32,
    pub bytes: Vec<u8>,
}

/// The mip levels of one array layer.
pub struct ImageAssetDataLayer {
    pub mip_levels: Vec<ImageAssetDataMipLevel>,
}

/// A payload unpacked into layers and mip levels.
pub struct ImageAssetDataPayloadSubresources {
    pub layers: Vec<ImageAssetDataLayer>,
}

/// A payload kept as one buffer, unpacked only at runtime.
pub struct ImageAssetDataPayloadSingleBuffer {
    pub buffer: Vec<u8>,
}

/// The payload of an image asset.
pub enum ImageAssetDataPayload {
    Subresources(ImageAssetDataPayloadSubresources),
    SingleBuffer(ImageAssetDataPayloadSingleBuffer),
}

/// An image asset: its size, format, resource type flags, whether mips are generated at
/// runtime, and its payload.
pub struct ImageAssetData {
    pub width: u32,
    pub height: u32,
    pub format: ImageAssetDataFormat,
    pub resource_type: u32,
    pub generate_mips_at_runtime: bool,
    pub data: ImageAssetDataPayload,
}

/// The uncompressed format of an image in a color space.
pub open spec fn rgba32_format(c: ImageAssetColorSpaceConfig) -> ImageAssetDataFormat {
    match c {
        ImageAssetColorSpaceConfig::Linear => ImageAssetDataFormat::RGBA32_Linear,
        ImageAssetColorSpaceConfig::Srgb => ImageAssetDataFormat::RGBA32_Srgb,
    }
}

impl ImageAssetData {
    /// The default storage of new image assets: uncompressed, with mips generated at
    /// runtime.
    pub fn default_format_and_mip_generation() -> (r: (ImageAssetDataFormatConfig, ImageAssetMipGeneration))
        ensures
            r == (ImageAssetDataFormatConfig::Uncompressed, ImageAssetMipGeneration::Runtime),
    {
        (ImageAssetDataFormatConfig::Uncompressed, ImageAssetMipGeneration::Runtime)
    }

    /// An uncompressed image asset of one layer and one mip level holding `raw_rgba32`.
    /// Fails when precomputed mips are asked for, which uncompressed storage cannot hold.
    pub fn from_raw_rgba32(
        width: u32,
        height: u32,
        color_space: ImageAssetColorSpaceConfig,
        format_config: ImageAssetDataFormatConfig,
        mip_generation: ImageAssetMipGeneration,
        resource_type: u32,
        raw_rgba32: &[u8],
    ) -> (r: Result<ImageAssetData, RafxError>)
        requires
            format_config == ImageAssetDataFormatConfig::Uncompressed,
        ensures
            mip_generation == ImageAssetMipGeneration::Precomupted ==> r == Err::<ImageAssetData, RafxError>(
                RafxError::PrecomputedMipsUncompressed,
            ),
            mip_generation != ImageAssetMipGeneration::Precomupted ==> (r matches Ok(d) && (d.width
                == width && d.height == height && d.format == rgba32_format(color_space)
                && d.resource_type == resource_type && d.generate_mips_at_runtime == (mip_generation
                == ImageAssetMipGeneration::Runtime) && (d.data matches ImageAssetDataPayload::Subresources(s)
                && s.layers@.len() == 1 && s.layers@[0].mip_levels@.len() == 1
                && s.layers@[0].mip_levels@[0].width == width && s.layers@[0].mip_levels@[0].height
                == height && s.layers@[0].mip_levels@[0].bytes@ == raw_rgba32@))),
    {
        let generate_mips_at_runtime = match mip_generation {
            ImageAssetMipGeneration::NoMips => false,
            ImageAssetMipGeneration::Precomupted => return Err(RafxError::PrecomputedMipsUncompressed),
            ImageAssetMipGeneration::Runtime => true,
        };
        let mip = ImageAssetDataMipLevel { width, height, bytes: slice_to_vec(raw_rgba32) };
        let layer = ImageAssetDataLayer { mip_levels: vec![mip] };
        let format = match color_space {
            ImageAssetColorSpaceConfig::Linear => ImageAssetDataFormat::RGBA32_Linear,
            ImageAssetColorSpaceConfig::Srgb => ImageAssetDataFormat::RGBA32_Srgb,
        };
        Ok(ImageAssetData {
            width,
            height,
            format,
            resource_type,
            generate_mips_at_runtime,
            data: ImageAssetDataPayload::Subresources(ImageAssetDataPayloadSubresources { layers: vec![layer] }),
        })
    }
}

} // verus!

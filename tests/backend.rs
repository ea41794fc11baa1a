use rafx_graph::asset_lookup::{AssetLookup, LoadedAssetState, SlotLocation};
use rafx_graph::image_asset::{
    GpuImageDataColorSpace, ImageAssetColorSpaceConfig, ImageAssetData, ImageAssetDataFormat,
    ImageAssetDataFormatConfig, ImageAssetDataPayload, ImageAssetMipGeneration,
};
use rafx_graph::semaphore::{RafxSemaphore, RafxSemaphoreEmpty, RafxSemaphoreMetal, RafxSemaphoreVulkan};
use rafx_graph::texture::{
    GlCommand, GlTextureFormatInfo, RafxDeviceContextGles2, RafxError, RafxExtents3D, RafxFormat,
    RafxRawImageGles2, RafxSampleCount, RafxTextureDef, RafxTextureDimensions, RafxTextureGles2,
    GL_RGBA, GL_TEXTURE_2D, GL_TEXTURE_CUBE_MAP, GL_TEXTURE_CUBE_MAP_NEGATIVE_Z,
    GL_TEXTURE_CUBE_MAP_POSITIVE_X, GL_UNPACK_ALIGNMENT, GL_UNSIGNED_BYTE, NONE_TEXTURE,
    RESOURCE_TYPE_TEXTURE, RESOURCE_TYPE_TEXTURE_CUBE,
};

fn def_2d(format: RafxFormat, mip_count: u32) -> RafxTextureDef {
    RafxTextureDef {
        extents: RafxExtents3D { width: 256, height: 64, depth: 1 },
        array_length: 1,
        mip_count,
        sample_count: RafxSampleCount::SampleCount1,
        format,
        resource_type: RESOURCE_TYPE_TEXTURE,
        dimensions: RafxTextureDimensions::Auto,
    }
}

#[test]
fn new_texture_queues_creation() {
    let mut dc = RafxDeviceContextGles2::new();
    let def = def_2d(RafxFormat::R8G8B8A8_UNORM, 3);
    let t = RafxTextureGles2::new(&mut dc, &def).unwrap();
    assert_eq!(t.gl_target(), GL_TEXTURE_2D);
    assert_eq!(*t.texture_def(), def);
    assert_eq!(*t.gl_raw_image(), RafxRawImageGles2::Texture(1));
    assert_eq!(t.gl_raw_image().gl_texture_id(), Some(1));
    assert_eq!(
        *t.gl_format_info(),
        GlTextureFormatInfo { gl_internal_format: GL_RGBA, gl_format: GL_RGBA, gl_type: GL_UNSIGNED_BYTE }
    );
    assert_eq!(dc.gl_commands.len(), 6);
    assert_eq!(dc.gl_commands[0], GlCommand::PixelStorei { pname: GL_UNPACK_ALIGNMENT, param: 1 });
    assert_eq!(dc.gl_commands[1], GlCommand::BindTexture { target: GL_TEXTURE_2D, texture: 1 });
    assert_eq!(
        dc.gl_commands[4],
        GlCommand::TexImage2D {
            target: GL_TEXTURE_2D,
            mip_level: 2,
            internal_format: GL_RGBA,
            width: 64,
            height: 16,
            border: 0,
            format: GL_RGBA,
            ty: GL_UNSIGNED_BYTE,
        }
    );
    assert_eq!(dc.gl_commands[5], GlCommand::BindTexture { target: GL_TEXTURE_2D, texture: NONE_TEXTURE });
    assert_eq!(dc.next_gl_texture, 2);
    assert_eq!(dc.next_texture_id, 1);
}

#[test]
fn cube_texture_uploads_six_faces() {
    let mut dc = RafxDeviceContextGles2::new();
    let mut def = def_2d(RafxFormat::R8G8B8A8_UNORM, 2);
    def.array_length = 6;
    def.resource_type = RESOURCE_TYPE_TEXTURE | RESOURCE_TYPE_TEXTURE_CUBE;
    let t = RafxTextureGles2::new(&mut dc, &def).unwrap();
    assert_eq!(t.gl_target(), GL_TEXTURE_CUBE_MAP);
    assert_eq!(dc.gl_commands.len(), 2 + 6 * 2 + 1);
    match dc.gl_commands[2] {
        GlCommand::TexImage2D { target, mip_level, .. } => {
            assert_eq!(target, GL_TEXTURE_CUBE_MAP_POSITIVE_X);
            assert_eq!(mip_level, 0);
        }
        _ => panic!("expected an upload"),
    }
    match dc.gl_commands[13] {
        GlCommand::TexImage2D { target, mip_level, width, .. } => {
            assert_eq!(target, GL_TEXTURE_CUBE_MAP_NEGATIVE_Z);
            assert_eq!(mip_level, 1);
            assert_eq!(width, 128);
        }
        _ => panic!("expected an upload"),
    }
}

#[test]
fn existing_image_is_wrapped_without_gl_calls() {
    let mut dc = RafxDeviceContextGles2::new();
    let def = def_2d(RafxFormat::R8G8B8A8_UNORM, 1);
    let t = RafxTextureGles2::from_existing(&mut dc, Some(RafxRawImageGles2::Texture(42)), &def).unwrap();
    assert_eq!(*t.gl_raw_image(), RafxRawImageGles2::Texture(42));
    assert!(dc.gl_commands.is_empty());
    assert_eq!(dc.next_gl_texture, 1);
    assert_eq!(dc.next_texture_id, 1);
}

#[test]
fn unsupported_format_is_an_error() {
    let mut dc = RafxDeviceContextGles2::new();
    let def = def_2d(RafxFormat::R32G32B32A32_SFLOAT, 1);
    let r = RafxTextureGles2::new(&mut dc, &def);
    assert_eq!(r.err(), Some(RafxError::UnsupportedFormat(RafxFormat::R32G32B32A32_SFLOAT)));
    assert!(dc.gl_commands.is_empty());
    assert_eq!(dc.next_texture_id, 0);
}

#[test]
fn textures_compare_by_id() {
    let mut dc = RafxDeviceContextGles2::new();
    let def = def_2d(RafxFormat::R8_UNORM, 1);
    let a = RafxTextureGles2::new(&mut dc, &def).unwrap();
    let b = RafxTextureGles2::new(&mut dc, &def).unwrap();
    assert!(a == a.clone());
    assert!(a != b);
    assert_eq!(a.inner.texture_id, 0);
    assert_eq!(b.inner.texture_id, 1);
}

#[test]
fn auto_dimensions_follow_depth() {
    let e2 = RafxExtents3D { width: 4, height: 4, depth: 1 };
    let e3 = RafxExtents3D { width: 4, height: 4, depth: 4 };
    assert_eq!(RafxTextureDimensions::Auto.determine_dimensions(e2), RafxTextureDimensions::Dim2D);
    assert_eq!(RafxTextureDimensions::Auto.determine_dimensions(e3), RafxTextureDimensions::Dim3D);
    assert_eq!(RafxTextureDimensions::Dim1D.determine_dimensions(e3), RafxTextureDimensions::Dim1D);
    assert_eq!(RafxFormat::UNDEFINED.gles2_texture_format_info(), None);
}

#[test]
fn semaphore_backend_accessors() {
    let vk = RafxSemaphore::Vk(RafxSemaphoreVulkan { vk_semaphore: 9 });
    let metal = RafxSemaphore::Metal(RafxSemaphoreMetal { metal_event: 3 });
    let empty = RafxSemaphore::Empty(RafxSemaphoreEmpty { id: 1 });
    assert_eq!(vk.vk_semaphore(), Some(&RafxSemaphoreVulkan { vk_semaphore: 9 }));
    assert_eq!(vk.metal_semaphore(), None);
    assert_eq!(vk.empty_semaphore(), None);
    assert_eq!(metal.metal_semaphore(), Some(&RafxSemaphoreMetal { metal_event: 3 }));
    assert_eq!(metal.vk_semaphore(), None);
    assert_eq!(empty.empty_semaphore(), Some(&RafxSemaphoreEmpty { id: 1 }));
    assert_eq!(empty.metal_semaphore(), None);
}

#[test]
fn asset_lookup_commit_cycle() {
    let mut lookup: AssetLookup<u32> = AssetLookup::new();
    assert_eq!(lookup.len(), 0);
    lookup.set_uncommitted(5, 10);
    assert_eq!(lookup.get_latest(5), Some(&10));
    assert_eq!(lookup.get_committed(5), None);
    lookup.commit(5);
    assert_eq!(lookup.get_committed(5), Some(&10));
    assert_eq!(lookup.get_latest(5), Some(&10));
    lookup.set_uncommitted(5, 11);
    assert_eq!(lookup.get_latest(5), Some(&11));
    assert_eq!(lookup.get_committed(5), Some(&10));
    lookup.set_uncommitted(6, 20);
    assert_eq!(lookup.len(), 2);
    lookup.free(5);
    assert_eq!(lookup.get_latest(5), None);
    assert_eq!(lookup.len(), 1);
    lookup.destroy();
    assert_eq!(lookup.len(), 0);
    assert_eq!(lookup.get_latest(6), None);
}

#[test]
fn asset_state_defaults_to_empty() {
    let state: LoadedAssetState<u8> = Default::default();
    assert!(state.committed.is_none());
    assert!(state.uncommitted.is_none());
    let slot = SlotLocation { layout_index: 1, binding_index: 2 };
    assert_eq!(slot.binding_index, 2);
}

#[test]
fn destroy_queues_texture_deletion() {
    let mut dc = RafxDeviceContextGles2::new();
    let def = def_2d(RafxFormat::R8G8B8A8_UNORM, 1);
    let t = RafxTextureGles2::new(&mut dc, &def).unwrap();
    let before = dc.gl_commands.len();
    t.inner.destroy(&mut dc);
    assert_eq!(dc.gl_commands.len(), before + 1);
    assert_eq!(dc.gl_commands[before], GlCommand::DeleteTexture { texture: 1 });
}

#[test]
fn raw_rgba32_image_asset() {
    let bytes = vec![1u8, 2, 3, 4, 5, 6, 7, 8];
    let d = ImageAssetData::from_raw_rgba32(
        2,
        1,
        ImageAssetColorSpaceConfig::Srgb,
        ImageAssetDataFormatConfig::Uncompressed,
        ImageAssetMipGeneration::Runtime,
        RESOURCE_TYPE_TEXTURE,
        &bytes,
    )
    .unwrap();
    assert_eq!(d.width, 2);
    assert_eq!(d.height, 1);
    assert_eq!(d.format, ImageAssetDataFormat::RGBA32_Srgb);
    assert!(d.generate_mips_at_runtime);
    match d.data {
        ImageAssetDataPayload::Subresources(s) => {
            assert_eq!(s.layers.len(), 1);
            assert_eq!(s.layers[0].mip_levels.len(), 1);
            assert_eq!(s.layers[0].mip_levels[0].bytes, bytes);
        }
        ImageAssetDataPayload::SingleBuffer(_) => panic!("expected subresources"),
    }
    let linear = ImageAssetData::from_raw_rgba32(
        2,
        1,
        ImageAssetColorSpaceConfig::Linear,
        ImageAssetDataFormatConfig::Uncompressed,
        ImageAssetMipGeneration::NoMips,
        RESOURCE_TYPE_TEXTURE,
        &bytes,
    )
    .unwrap();
    assert_eq!(linear.format, ImageAssetDataFormat::RGBA32_Linear);
    assert!(!linear.generate_mips_at_runtime);
}

#[test]
fn uncompressed_cannot_hold_precomputed_mips() {
    let r = ImageAssetData::from_raw_rgba32(
        1,
        1,
        ImageAssetColorSpaceConfig::Linear,
        ImageAssetDataFormatConfig::Uncompressed,
        ImageAssetMipGeneration::Precomupted,
        RESOURCE_TYPE_TEXTURE,
        &[0u8, 0, 0, 0],
    );
    assert_eq!(r.err(), Some(RafxError::PrecomputedMipsUncompressed));
}

#[test]
fn image_asset_defaults_and_color_space() {
    assert_eq!(
        ImageAssetData::default_format_and_mip_generation(),
        (ImageAssetDataFormatConfig::Uncompressed, ImageAssetMipGeneration::Runtime)
    );
    let gpu: GpuImageDataColorSpace = ImageAssetColorSpaceConfig::Srgb.into();
    assert_eq!(gpu, GpuImageDataColorSpace::Srgb);
    assert_eq!(GpuImageDataColorSpace::from(ImageAssetColorSpaceConfig::Linear), GpuImageDataColorSpace::Linear);
}

#[test]
fn default_asset_lookup_is_empty() {
    let lookup: AssetLookup<u8> = Default::default();
    assert_eq!(lookup.len(), 0);
    assert_eq!(lookup.get_committed(1), None);
}

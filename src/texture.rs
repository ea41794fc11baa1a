//! Textures of the OpenGL ES 2.0 backend.
//!
//! The device context owns the texture bookkeeping (the next texture id and the next GL
//! texture name) and queues the GL calls that realize a texture, which the GL thread
//! performs in order.
use std::sync::Arc;
use vstd::prelude::*;

verus! {

/// A GL texture name.
pub type TextureId = u32;

/// A GL enumerant.
pub type GLenum = u32;

/// The texture name that unbinds a target.
pub const NONE_TEXTURE: TextureId = 0;

pub const GL_TEXTURE_2D: GLenum = 0x0DE1;
pub const GL_TEXTURE_CUBE_MAP: GLenum = 0x8513;
pub const GL_TEXTURE_CUBE_MAP_POSITIVE_X: GLenum = 0x8515;
pub const GL_TEXTURE_CUBE_MAP_NEGATIVE_X: GLenum = 0x8516;
pub const GL_TEXTURE_CUBE_MAP_POSITIVE_Y: GLenum = 0x8517;
pub const GL_TEXTURE_CUBE_MAP_NEGATIVE_Y: GLenum = 0x8518;
pub const GL_TEXTURE_CUBE_MAP_POSITIVE_Z: GLenum = 0x8519;
pub const GL_TEXTURE_CUBE_MAP_NEGATIVE_Z: GLenum = 0x851A;
pub const GL_UNPACK_ALIGNMENT: GLenum = 0x0CF5;
pub const GL_DEPTH_COMPONENT: GLenum = 0x1902;
pub const GL_RGB: GLenum = 0x1907;
pub const GL_RGBA: GLenum = 0x1908;
pub const GL_LUMINANCE: GLenum = 0x1909;
pub const GL_UNSIGNED_BYTE: GLenum = 0x1401;
pub const GL_UNSIGNED_SHORT: GLenum = 0x1403;

/// Resource type flag: the texture can be sampled.
pub const RESOURCE_TYPE_TEXTURE: u32 = 1;

/// Resource type flag: the texture is a cube map.
pub const RESOURCE_TYPE_TEXTURE_CUBE: u32 = 2;

/// Resource type flag: the texture can be a color render target.
pub const RESOURCE_TYPE_RENDER_TARGET_COLOR: u32 = 4;

/// Texel formats.
#[allow(non_camel_case_types)]
#[derive(Clone, Copy, Debug, PartialEq, Eq, Structural)]
pub enum RafxFormat {
    UNDEFINED,
    R8_UNORM,
    R8G8B8_UNORM,
    R8G8B8A8_UNORM,
    R8G8B8A8_SRGB,
    D16_UNORM,
    R32G32B32A32_SFLOAT,
}

/// The GL formats a texel format is uploaded with.
#[derive(Clone, Copy, Debug, PartialEq, Eq, Structural)]
pub struct GlTextureFormatInfo {
    pub gl_internal_format: GLenum,
    pub gl_format: GLenum,
    pub gl_type: GLenum,
}

/// The GL formats of a texel format, if OpenGL ES 2.0 supports it.
pub open spec fn format_info_of(f: RafxFormat) -> Option<GlTextureFormatInfo> {
    match f {
        RafxFormat::R8_UNORM => Some(
            GlTextureFormatInfo { gl_internal_format: GL_LUMINANCE, gl_format: GL_LUMINANCE, gl_type: GL_UNSIGNED_BYTE },
        ),
        RafxFormat::R8G8B8_UNORM => Some(
            GlTextureFormatInfo { gl_internal_format: GL_RGB, gl_format: GL_RGB, gl_type: GL_UNSIGNED_BYTE },
        ),
        RafxFormat::R8G8B8A8_UNORM => Some(
            GlTextureFormatInfo { gl_internal_format: GL_RGBA, gl_format: GL_RGBA, gl_type: GL_UNSIGNED_BYTE },
        ),
        RafxFormat::D16_UNORM => Some(
            GlTextureFormatInfo {
                gl_internal_format: GL_DEPTH_COMPONENT,
                gl_format: GL_DEPTH_COMPONENT,
                gl_type: GL_UNSIGNED_SHORT,
            },
        ),
        _ => None,
    }
}

impl RafxFormat {
    /// The GL formats of this texel format, if OpenGL ES 2.0 supports it.
    pub fn gles2_texture_format_info(&self) -> (r: Option<GlTextureFormatInfo>)
        ensures
            r == format_info_of(*self),
    {
        match self {
            RafxFormat::R8_UNORM => Some(
                GlTextureFormatInfo { gl_internal_format: GL_LUMINANCE, gl_format: GL_LUMINANCE, gl_type: GL_UNSIGNED_BYTE },
            ),
            RafxFormat::R8G8B8_UNORM => Some(
                GlTextureFormatInfo { gl_internal_format: GL_RGB, gl_format: GL_RGB, gl_type: GL_UNSIGNED_BYTE },
            ),
            RafxFormat::R8G8B8A8_UNORM => Some(
                GlTextureFormatInfo { gl_internal_format: GL_RGBA, gl_format: GL_RGBA, gl_type: GL_UNSIGNED_BYTE },
            ),
            RafxFormat::D16_UNORM => Some(
                GlTextureFormatInfo {
                    gl_internal_format: GL_DEPTH_COMPONENT,
                    gl_format: GL_DEPTH_COMPONENT,
                    gl_type: GL_UNSIGNED_SHORT,
                },
            ),
            _ => None,
        }
    }
}

/// Samples per texel.
#[derive(Clone, Copy, Debug, PartialEq, Eq, Structural)]
pub enum RafxSampleCount {
    SampleCount1,
    SampleCount2,
    SampleCount4,
    SampleCount8,
    SampleCount16,
}

/// The dimensionality of a texture; `Auto` derives it from the extents.
#[derive(Clone, Copy, Debug, PartialEq, Eq, Structural)]
pub enum RafxTextureDimensions {
    Auto,
    Dim1D,
    Dim2D,
    Dim3D,
}

/// Width, height and depth in texels.
#[derive(Clone, Copy, Debug, PartialEq, Eq, Structural)]
pub struct RafxExtents3D {
    pub width: u32,
    pub height: u32,
    pub depth: u32,
}

/// The dimensionality `d` resolves to for these extents.
pub open spec fn dimensions_of(d: RafxTextureDimensions, e: RafxExtents3D) -> RafxTextureDimensions {
    match d {
        RafxTextureDimensions::Auto => if e.depth > 1 {
            RafxTextureDimensions::Dim3D
        } else {
            RafxTextureDimensions::Dim2D
        },
        _ => d,
    }
}

impl RafxTextureDimensions {
    /// Resolves `Auto` from the extents: 3D when deeper than one texel, else 2D.
    pub fn determine_dimensions(&self, extents: RafxExtents3D) -> (r: RafxTextureDimensions)
        ensures
            r == dimensions_of(*self, extents),
    {
        match self {
            RafxTextureDimensions::Auto => if extents.depth > 1 {
                RafxTextureDimensions::Dim3D
            } else {
                RafxTextureDimensions::Dim2D
            },
            _ => *self,
        }
    }
}

/// Describes a texture.
#[derive(Clone, Copy, Debug, PartialEq, Eq, Structural)]
pub struct RafxTextureDef {
    pub extents: RafxExtents3D,
    pub array_length: u32,
    pub mip_count: u32,
    pub sample_count: RafxSampleCount,
    pub format: RafxFormat,
    pub resource_type: u32,
    pub dimensions: RafxTextureDimensions,
}

impl RafxTextureDef {
    /// Non-empty extents, at least one layer, and between one and 32 mip levels.
    pub open spec fn is_valid(&self) -> bool {
        &&& self.extents.width > 0
        &&& self.extents.height > 0
        &&& self.extents.depth > 0
        &&& self.array_length > 0
        &&& 0 < self.mip_count <= 32
    }

    /// The texture is a cube map.
    pub open spec fn is_cube(&self) -> bool {
        self.resource_type & RESOURCE_TYPE_TEXTURE_CUBE != 0
    }

    /// What the OpenGL ES 2.0 backend can create: single-sampled 2D textures, and cube maps
    /// of exactly six faces.
    pub open spec fn gles2_supported(&self) -> bool {
        &&& self.sample_count == RafxSampleCount::SampleCount1
        &&& dimensions_of(self.dimensions, self.extents) == RafxTextureDimensions::Dim2D
        &&& self.is_cube() ==> self.array_length == 6
    }

    /// The GL target a texture of this description binds to.
    pub open spec fn gl_target_spec(&self) -> GLenum {
        if self.is_cube() {
            GL_TEXTURE_CUBE_MAP
        } else {
            GL_TEXTURE_2D
        }
    }
}

/// The images a texture is uploaded as: the six faces of a cube map, or the 2D target.
pub open spec fn subtargets_of(gl_target: GLenum) -> Seq<GLenum> {
    if gl_target == GL_TEXTURE_CUBE_MAP {
        seq![
            GL_TEXTURE_CUBE_MAP_POSITIVE_X,
            GL_TEXTURE_CUBE_MAP_NEGATIVE_X,
            GL_TEXTURE_CUBE_MAP_POSITIVE_Y,
            GL_TEXTURE_CUBE_MAP_NEGATIVE_Y,
            GL_TEXTURE_CUBE_MAP_POSITIVE_Z,
            GL_TEXTURE_CUBE_MAP_NEGATIVE_Z,
        ]
    } else {
        seq![GL_TEXTURE_2D]
    }
}

/// A GL call that the GL thread performs.
#[derive(Clone, Copy, Debug, PartialEq, Eq, Structural)]
pub enum GlCommand {
    PixelStorei { pname: GLenum, param: i32 },
    BindTexture { target: GLenum, texture: TextureId },
    TexImage2D {
        target: GLenum,
        mip_level: u8,
        internal_format: GLenum,
        width: u32,
        height: u32,
        border: i32,
        format: GLenum,
        ty: GLenum,
    },
    DeleteTexture { texture: TextureId },
}

/// The uploads of every mip level of one image.
pub open spec fn mip_uploads(subtarget: GLenum, def: RafxTextureDef, info: GlTextureFormatInfo) -> Seq<GlCommand> {
    Seq::new(
        def.mip_count as nat,
        |m: int|
            GlCommand::TexImage2D {
                target: subtarget,
                mip_level: m as u8,
                internal_format: info.gl_internal_format,
                width: def.extents.width >> (m as u32),
                height: def.extents.height >> (m as u32),
                border: 0,
                format: info.gl_format,
                ty: info.gl_type,
            },
    )
}

/// The uploads of the first `j` images.
pub open spec fn image_uploads(subtargets: Seq<GLenum>, def: RafxTextureDef, info: GlTextureFormatInfo, j: nat) -> Seq<
    GlCommand,
>
    decreases j,
{
    if j == 0 {
        seq![]
    } else {
        image_uploads(subtargets, def, info, (j - 1) as nat) + mip_uploads(subtargets[j - 1], def, info)
    }
}

/// The GL calls that create texture `name`: set the unpack alignment, bind it, upload every
/// mip level of every image with no data, unbind.
pub open spec fn creation_commands(name: TextureId, def: RafxTextureDef, info: GlTextureFormatInfo) -> Seq<GlCommand> {
    let target = def.gl_target_spec();
    let subtargets = subtargets_of(target);
    seq![
        GlCommand::PixelStorei { pname: GL_UNPACK_ALIGNMENT, param: 1 },
        GlCommand::BindTexture { target, texture: name },
    ] + image_uploads(subtargets, def, info, subtargets.len()) + seq![
        GlCommand::BindTexture { target, texture: NONE_TEXTURE },
    ]
}

/// An error of the GL backend.
#[derive(Clone, Copy, Debug, PartialEq, Eq, Structural)]
pub enum RafxError {
    /// OpenGL ES 2.0 cannot hold textures of this format.
    UnsupportedFormat(RafxFormat),
    /// Uncompressed image storage cannot hold precomputed mipmaps.
    PrecomputedMipsUncompressed,
}

pub type RafxResult<T> = Result<T, RafxError>;

/// The GL device context: texture bookkeeping and the queue of GL calls.
pub struct RafxDeviceContextGles2 {
    /// The name the next created GL texture gets; never `NONE_TEXTURE`.
    pub next_gl_texture: TextureId,
    /// The id the next texture object gets.
    pub next_texture_id: u32,
    /// The GL calls queued for the GL thread, in order.
    pub gl_commands: Vec<GlCommand>,
}

/// The counter value after `n`, wrapping around.
pub open spec fn next_id(n: u32) -> u32 {
    if n == u32::MAX {
        0
    } else {
        (n + 1) as u32
    }
}

/// The GL texture name after `n`, skipping `NONE_TEXTURE`.
pub open spec fn next_name(n: TextureId) -> TextureId {
    if n == u32::MAX {
        1
    } else {
        (n + 1) as u32
    }
}

impl RafxDeviceContextGles2 {
    /// A context with nothing queued.
    pub fn new() -> (r: Self)
        ensures
            r.next_gl_texture == 1,
            r.next_texture_id == 0,
            r.gl_commands@.len() == 0,
    {
        RafxDeviceContextGles2 { next_gl_texture: 1, next_texture_id: 0, gl_commands: Vec::new() }
    }
}

/// A GL image: a texture name.
#[derive(Clone, Copy, Debug, PartialEq, Eq, Structural)]
pub enum RafxRawImageGles2 {
    Texture(TextureId),
}

impl RafxRawImageGles2 {
    /// The texture name of this image.
    pub fn gl_texture_id(&self) -> (r: Option<TextureId>)
        ensures
            match *self {
                RafxRawImageGles2::Texture(id) => r == Some(id),
            },
    {
        match self {
            RafxRawImageGles2::Texture(id) => Some(*id),
        }
    }
}

/// The data of one texture.
#[derive(Debug)]
pub struct RafxTextureGles2Inner {
    pub texture_def: RafxTextureDef,
    pub image: RafxRawImageGles2,
    pub gl_target: GLenum,
    pub texture_id: u32,
    pub format_info: GlTextureFormatInfo,
}

impl RafxTextureGles2Inner {
    /// Releases the GL image of a texture that is no longer used: queues the deletion of
    /// its texture name.
    pub fn destroy(&self, device_context: &mut RafxDeviceContextGles2)
        ensures
            final(device_context).next_gl_texture == old(device_context).next_gl_texture,
            final(device_context).next_texture_id == old(device_context).next_texture_id,
            match self.image {
                RafxRawImageGles2::Texture(id) => final(device_context).gl_commands@ == old(
                    device_context,
                ).gl_commands@.push(GlCommand::DeleteTexture { texture: id }),
            },
    {
        match self.image {
            RafxRawImageGles2::Texture(texture_id) => {
                device_context.gl_commands.push(GlCommand::DeleteTexture { texture: texture_id });
            },
        }
    }
}

/// A texture of the GL backend; clones share the same texture, and two textures are equal
/// when they have the same id.
#[derive(Clone, Debug)]
pub struct RafxTextureGles2 {
    pub inner: Arc<RafxTextureGles2Inner>,
}

impl PartialEq for RafxTextureGles2 {
    fn eq(&self, other: &Self) -> (r: bool) {
        self.inner.texture_id == other.inner.texture_id
    }
}

impl vstd::std_specs::cmp::PartialEqSpecImpl for RafxTextureGles2 {
    open spec fn obeys_eq_spec() -> bool {
        true
    }

    open spec fn eq_spec(&self, other: &RafxTextureGles2) -> bool {
        self.inner.texture_id == other.inner.texture_id
    }
}

impl Eq for RafxTextureGles2 {
}

fn queue_uploads(
    commands: &mut Vec<GlCommand>,
    subtargets: &Vec<GLenum>,
    def: &RafxTextureDef,
    info: &GlTextureFormatInfo,
)
    requires
        def.mip_count <= 32,
    ensures
        final(commands)@ == old(commands)@ + image_uploads(subtargets@, *def, *info, subtargets@.len()),
{
    let ghost base = commands@;
    let mut j: usize = 0;
    while j < subtargets.len()
        invariant
            def.mip_count <= 32,
            j <= subtargets@.len(),
            commands@ == base + image_uploads(subtargets@, *def, *info, j as nat),
        decreases subtargets@.len() - j,
    {
        let subtarget = subtargets[j];
        let ghost before = commands@;
        let ghost mips = mip_uploads(subtarget, *def, *info);
        let mut m: u32 = 0;
        while m < def.mip_count
            invariant
                def.mip_count <= 32,
                m <= def.mip_count,
                mips == mip_uploads(subtarget, *def, *info),
                commands@ == before + mips.take(m as int),
            decreases def.mip_count - m,
        {
            commands.push(
                GlCommand::TexImage2D {
                    target: subtarget,
                    mip_level: m as u8,
                    internal_format: info.gl_internal_format,
                    width: def.extents.width >> m,
                    height: def.extents.height >> m,
                    border: 0,
                    format: info.gl_format,
                    ty: info.gl_type,
                },
            );
            assert(mips.take(m + 1) =~= mips.take(m as int).push(mips[m as int]));
            m = m + 1;
        }
        assert(mips.take(def.mip_count as int) =~= mips);
        assert(commands@ =~= base + image_uploads(subtargets@, *def, *info, (j + 1) as nat));
        j = j + 1;
    }
}

impl RafxTextureGles2 {
    /// The description the texture was created from.
    pub fn texture_def(&self) -> (r: &RafxTextureDef)
        ensures
            *r == self.inner.texture_def,
    {
        &self.inner.texture_def
    }

    /// The GL image behind the texture.
    pub fn gl_raw_image(&self) -> (r: &RafxRawImageGles2)
        ensures
            *r == self.inner.image,
    {
        &self.inner.image
    }

    /// The GL target the texture binds to.
    pub fn gl_target(&self) -> (r: GLenum)
        ensures
            r == self.inner.gl_target,
    {
        self.inner.gl_target
    }

    /// The GL formats the texture is uploaded with.
    pub fn gl_format_info(&self) -> (r: &GlTextureFormatInfo)
        ensures
            *r == self.inner.format_info,
    {
        &self.inner.format_info
    }

    /// Creates a texture with a new GL texture.
    pub fn new(device_context: &mut RafxDeviceContextGles2, texture_def: &RafxTextureDef) -> (r: RafxResult<RafxTextureGles2>)
        requires
            texture_def.is_valid(),
            texture_def.gles2_supported(),
        ensures
            format_info_of(texture_def.format) is None ==> r == Err::<RafxTextureGles2, RafxError>(RafxError::UnsupportedFormat(texture_def.format))
                && *final(device_context) == *old(device_context),
            format_info_of(texture_def.format) matches Some(info) ==> r matches Ok(t) && t.inner.texture_def == *texture_def
                && t.inner.gl_target == texture_def.gl_target_spec() && t.inner.format_info == info
                && t.inner.texture_id == old(device_context).next_texture_id
                && t.inner.image == RafxRawImageGles2::Texture(old(device_context).next_gl_texture)
                && final(device_context).next_texture_id == next_id(old(device_context).next_texture_id)
                && final(device_context).next_gl_texture == next_name(old(device_context).next_gl_texture)
                && final(device_context).gl_commands@ == old(device_context).gl_commands@ + creation_commands(
                    old(device_context).next_gl_texture,
                    *texture_def,
                    info,
                ),
    {
        Self::from_existing(device_context, None, texture_def)
    }

    /// Creates a texture of the given description; over an existing GL image (a swapchain
    /// image) when one is given, else over a new GL texture whose creation is queued.
    /// Fails when OpenGL ES 2.0 does not support the format.
    pub fn from_existing(
        device_context: &mut RafxDeviceContextGles2,
        existing_image: Option<RafxRawImageGles2>,
        texture_def: &RafxTextureDef,
    ) -> (r: RafxResult<RafxTextureGles2>)
        requires
            texture_def.is_valid(),
            texture_def.gles2_supported(),
        ensures
            format_info_of(texture_def.format) is None ==> r == Err::<RafxTextureGles2, RafxError>(RafxError::UnsupportedFormat(texture_def.format))
                && *final(device_context) == *old(device_context),
            format_info_of(texture_def.format) matches Some(info) ==> r matches Ok(t) && t.inner.texture_def == *texture_def
                && t.inner.gl_target == texture_def.gl_target_spec() && t.inner.format_info == info
                && t.inner.texture_id == old(device_context).next_texture_id
                && final(device_context).next_texture_id == next_id(old(device_context).next_texture_id)
                && match existing_image {
                    Some(image) => t.inner.image == image && final(device_context).next_gl_texture
                        == old(device_context).next_gl_texture && final(device_context).gl_commands@
                        == old(device_context).gl_commands@,
                    None => t.inner.image == RafxRawImageGles2::Texture(old(device_context).next_gl_texture)
                        && final(device_context).next_gl_texture == next_name(old(device_context).next_gl_texture)
                        && final(device_context).gl_commands@ == old(device_context).gl_commands@
                            + creation_commands(old(device_context).next_gl_texture, *texture_def, info),
                },
    {
        let gl_target = if texture_def.resource_type & RESOURCE_TYPE_TEXTURE_CUBE != 0 {
            GL_TEXTURE_CUBE_MAP
        } else {
            GL_TEXTURE_2D
        };
        let format_info = match texture_def.format.gles2_texture_format_info() {
            Some(info) => info,
            None => return Err(RafxError::UnsupportedFormat(texture_def.format)),
        };
        let image = match existing_image {
            Some(existing_image) => existing_image,
            None => {
                let texture_id = device_context.next_gl_texture;
                device_context.next_gl_texture = if texture_id == u32::MAX {
                    1
                } else {
                    texture_id + 1
                };
                let ghost base = device_context.gl_commands@;
                device_context.gl_commands.push(GlCommand::PixelStorei { pname: GL_UNPACK_ALIGNMENT, param: 1 });
                device_context.gl_commands.push(GlCommand::BindTexture { target: gl_target, texture: texture_id });
                let subtargets: Vec<GLenum> = if gl_target == GL_TEXTURE_CUBE_MAP {
                    vec![
                        GL_TEXTURE_CUBE_MAP_POSITIVE_X,
                        GL_TEXTURE_CUBE_MAP_NEGATIVE_X,
                        GL_TEXTURE_CUBE_MAP_POSITIVE_Y,
                        GL_TEXTURE_CUBE_MAP_NEGATIVE_Y,
                        GL_TEXTURE_CUBE_MAP_POSITIVE_Z,
                        GL_TEXTURE_CUBE_MAP_NEGATIVE_Z,
                    ]
                } else {
                    vec![GL_TEXTURE_2D]
                };
                assert(subtargets@ =~= subtargets_of(gl_target));
                let ghost with_bind = device_context.gl_commands@;
                queue_uploads(&mut device_context.gl_commands, &subtargets, texture_def, &format_info);
                device_context.gl_commands.push(GlCommand::BindTexture { target: gl_target, texture: NONE_TEXTURE });
                assert(device_context.gl_commands@ =~= base + creation_commands(texture_id, *texture_def, format_info));
                RafxRawImageGles2::Texture(texture_id)
            },
        };
        let texture_id = device_context.next_texture_id;
        device_context.next_texture_id = if texture_id == u32::MAX {
            0
        } else {
            texture_id + 1
        };
        let inner = RafxTextureGles2Inner {
            texture_def: *texture_def,
            image,
            gl_target,
            texture_id,
            format_info,
        };
        Ok(RafxTextureGles2 { inner: Arc::new(inner) })
    }
}

} // verus!

//! Texel formats of the GPU textures and the bookkeeping of what a texture
//! holds; the GL calls themselves are made by the caller.
use vstd::prelude::*;

verus! {

pub const GL_RGBA8: u32 = 0x8058;
pub const GL_RGBA16: u32 = 0x805B;
pub const GL_RGB8: u32 = 0x8051;
pub const GL_RGB16: u32 = 0x8054;
pub const GL_BGR: u32 = 0x80E0;
pub const GL_BGRA: u32 = 0x80E1;
pub const GL_R8: u32 = 0x8229;
pub const GL_R16: u32 = 0x822A;
pub const GL_RG8: u32 = 0x822B;
pub const GL_RG16: u32 = 0x822C;
pub const GL_RGBA: u32 = 0x1908;
pub const GL_RGB: u32 = 0x1907;
pub const GL_RED: u32 = 0x1903;
pub const GL_RG: u32 = 0x8227;
pub const GL_UNSIGNED_BYTE: u32 = 0x1401;
pub const GL_UNSIGNED_SHORT: u32 = 0x1403;

/// A texel format: channel layout and, where it varies, bits per channel.
#[derive(PartialEq, Eq, Structural, Copy, Clone, Debug)]
pub enum InternalFormat {
    Rgba(u8),
    Rgb(u8),
    Bgra,
    Bgr,
    R(u8),
    Rg(u8),
}

/// Whether the bits per channel are among those supported (at most 16).
pub open spec fn format_supported(f: InternalFormat) -> bool {
    match f {
        InternalFormat::Rgba(bits) => bits <= 16,
        InternalFormat::Rgb(bits) => bits <= 16,
        InternalFormat::R(bits) => bits <= 16,
        InternalFormat::Rg(bits) => bits <= 16,
        _ => true,
    }
}

/// Number of channels of a format.
pub open spec fn channels(f: InternalFormat) -> nat {
    match f {
        InternalFormat::Rgba(_) => 4,
        InternalFormat::Rgb(_) => 3,
        InternalFormat::Bgra => 4,
        InternalFormat::Bgr => 3,
        InternalFormat::R(_) => 1,
        InternalFormat::Rg(_) => 2,
    }
}

/// Bytes per channel: one up to 8 bits, two up to 16.
pub open spec fn channel_bytes(f: InternalFormat) -> nat {
    match f {
        InternalFormat::Rgba(bits) => if bits <= 8 { 1 } else { 2 },
        InternalFormat::Rgb(bits) => if bits <= 8 { 1 } else { 2 },
        InternalFormat::R(bits) => if bits <= 8 { 1 } else { 2 },
        InternalFormat::Rg(bits) => if bits <= 8 { 1 } else { 2 },
        _ => 1,
    }
}

impl InternalFormat {
    /// Bytes per texel: channels times bytes per channel.
    pub fn get_texel_size_bytes(&self) -> (n: usize)
        requires
            format_supported(*self),
        ensures
            n == channels(*self) * channel_bytes(*self),
    {
        match *self {
            InternalFormat::Rgba(bits) => if bits <= 8 {
                4
            } else {
                8
            },
            InternalFormat::Rgb(bits) => if bits <= 8 {
                3
            } else {
                6
            },
            InternalFormat::Bgr => 3,
            InternalFormat::Bgra => 4,
            InternalFormat::R(bits) => if bits <= 8 {
                1
            } else {
                2
            },
            InternalFormat::Rg(bits) => if bits <= 8 {
                2
            } else {
                4
            },
        }
    }

    /// The sized GL internal format.
    pub fn get_internal_format(&self) -> (n: i32)
        requires
            format_supported(*self),
        ensures
            n == internal_format_code(*self),
    {
        let code: u32 = match *self {
            InternalFormat::Rgba(bits) => if bits <= 8 {
                GL_RGBA8
            } else {
                GL_RGBA16
            },
            InternalFormat::Rgb(bits) => if bits <= 8 {
                GL_RGB8
            } else {
                GL_RGB16
            },
            InternalFormat::Bgr => GL_BGR,
            InternalFormat::Bgra => GL_BGRA,
            InternalFormat::R(bits) => if bits <= 8 {
                GL_R8
            } else {
                GL_R16
            },
            InternalFormat::Rg(bits) => if bits <= 8 {
                GL_RG8
            } else {
                GL_RG16
            },
        };
        code as i32
    }

    /// The GL pixel format (channel layout).
    pub fn get_format(&self) -> (n: u32)
        ensures
            n == format_code(*self),
    {
        match *self {
            InternalFormat::Rgba(_) => GL_RGBA,
            InternalFormat::Rgb(_) => GL_RGB,
            InternalFormat::Bgr => GL_BGR,
            InternalFormat::Bgra => GL_BGRA,
            InternalFormat::R(_) => GL_RED,
            InternalFormat::Rg(_) => GL_RG,
        }
    }

    /// The GL channel type: bytes up to 8 bits, shorts up to 16.
    pub fn get_type(&self) -> (n: u32)
        requires
            format_supported(*self),
        ensures
            n == (if channel_bytes(*self) == 1 { GL_UNSIGNED_BYTE } else { GL_UNSIGNED_SHORT }),
    {
        match *self {
            InternalFormat::Rgba(bits) | InternalFormat::R(bits) | InternalFormat::Rg(bits)
            | InternalFormat::Rgb(bits) => if bits <= 8 {
                GL_UNSIGNED_BYTE
            } else {
                GL_UNSIGNED_SHORT
            },
            InternalFormat::Bgr | InternalFormat::Bgra => GL_UNSIGNED_BYTE,
        }
    }
}

/// Sized GL internal format of a format.
pub open spec fn internal_format_code(f: InternalFormat) -> int {
    match f {
        InternalFormat::Rgba(bits) => if bits <= 8 { GL_RGBA8 as int } else { GL_RGBA16 as int },
        InternalFormat::Rgb(bits) => if bits <= 8 { GL_RGB8 as int } else { GL_RGB16 as int },
        InternalFormat::Bgr => GL_BGR as int,
        InternalFormat::Bgra => GL_BGRA as int,
        InternalFormat::R(bits) => if bits <= 8 { GL_R8 as int } else { GL_R16 as int },
        InternalFormat::Rg(bits) => if bits <= 8 { GL_RG8 as int } else { GL_RG16 as int },
    }
}

/// GL pixel format of a format.
pub open spec fn format_code(f: InternalFormat) -> u32 {
    match f {
        InternalFormat::Rgba(_) => GL_RGBA,
        InternalFormat::Rgb(_) => GL_RGB,
        InternalFormat::Bgr => GL_BGR,
        InternalFormat::Bgra => GL_BGRA,
        InternalFormat::R(_) => GL_RED,
        InternalFormat::Rg(_) => GL_RG,
    }
}

/// Texels per row for rows `stride` bytes apart, as the unpack row length
/// of an upload with a stride.
pub fn row_length(stride: usize, format: InternalFormat) -> (n: usize)
    requires
        format_supported(format),
    ensures
        n == stride as int / (channels(format) * channel_bytes(format)) as int,
{
    let texel = format.get_texel_size_bytes();
    assert(texel > 0) by (nonlinear_arith)
        requires
            texel == channels(format) * channel_bytes(format),
            channels(format) >= 1,
            channel_bytes(format) >= 1,
    ;
    stride / texel
}

/// A GPU texture: its GL name and, once storage was allocated, its size and
/// format.
pub struct Texture {
    pub id: u32,
    pub width: Option<u32>,
    pub height: Option<u32>,
    pub format: Option<InternalFormat>,
}

impl Texture {
    /// A texture for the GL name `id`, with no storage yet.
    pub fn from_id(id: u32) -> (t: Texture)
        ensures
            t.id == id,
            t.width is None,
            t.height is None,
            t.format is None,
    {
        Texture { id, width: None, height: None, format: None }
    }

    /// Whether the texture already holds storage of exactly this size and
    /// format.
    pub fn has_space(&self, width: u32, height: u32, format: InternalFormat) -> (b: bool)
        ensures
            b == (self.width == Some(width) && self.height == Some(height) && self.format == Some(
                format,
            )),
    {
        let self_width = match self.width {
            Some(width) => width,
            None => return false,
        };
        let self_height = match self.height {
            Some(height) => height,
            None => return false,
        };
        let self_format = match self.format {
            Some(format) => format,
            None => return false,
        };
        width == self_width && height == self_height && format == self_format
    }

    /// Records that storage of this size and format was uploaded.
    pub fn record_upload(&mut self, width: u32, height: u32, format: InternalFormat)
        ensures
            final(self).id == old(self).id,
            final(self).width == Some(width),
            final(self).height == Some(height),
            final(self).format == Some(format),
    {
        self.width = Some(width);
        self.height = Some(height);
        self.format = Some(format);
    }
}

} // verus!

//! From a decoded image to a texture upload: which format the device is
//! told, and whether the pixel data is enough for it.

use vstd::prelude::*;

verus! {

/// How the pixels of a decoded image are laid out, one byte per channel.
#[derive(Clone, Copy, Debug, PartialEq, Eq, Structural)]
pub enum PixelLayout {
    /// One channel of grey.
    Gray,
    /// Grey and alpha.
    GrayAlpha,
    /// Red, green, blue.
    Rgb,
    /// Red, green, blue, alpha.
    Rgba,
    /// Blue, green, red.
    Bgr,
    /// Blue, green, red, alpha.
    Bgra,
    /// Colours of a palette, given as red, green, blue.
    Palette,
}

/// The format that the device is given for a texture's data.
#[derive(Clone, Copy, Debug, PartialEq, Eq, Structural)]
pub enum TextureFormat {
    /// One colour channel.
    Red,
    /// Two colour channels.
    Rg,
    Rgb,
    Rgba,
    Bgr,
    Bgra,
}

/// Why an image cannot be uploaded.
#[derive(Clone, Copy, Debug, PartialEq, Eq, Structural)]
pub enum TextureError {
    /// The image has no pixels.
    Empty,
    /// A side of the image is longer than the device can be told.
    TooLarge,
    /// There are fewer bytes than the image's size and layout call for.
    TooFewBytes,
}

/// A texture upload: the format and the size that the device is told.
#[derive(Clone, Copy, Debug, PartialEq, Eq, Structural)]
pub struct TextureUpload {
    pub format: TextureFormat,
    pub width: i32,
    pub height: i32,
}

/// The format for a layout. Grey is a colour, not a depth: one channel of
/// grey is one colour channel, and grey with alpha is two. Palette colours
/// are red, green, blue.
pub open spec fn format_of(layout: PixelLayout) -> TextureFormat {
    match layout {
        PixelLayout::Gray => TextureFormat::Red,
        PixelLayout::GrayAlpha => TextureFormat::Rg,
        PixelLayout::Rgb => TextureFormat::Rgb,
        PixelLayout::Rgba => TextureFormat::Rgba,
        PixelLayout::Bgr => TextureFormat::Bgr,
        PixelLayout::Bgra => TextureFormat::Bgra,
        PixelLayout::Palette => TextureFormat::Rgb,
    }
}

/// Bytes that one pixel takes in a layout.
pub open spec fn bytes_per_pixel(layout: PixelLayout) -> int {
    match layout {
        PixelLayout::Gray => 1,
        PixelLayout::GrayAlpha => 2,
        PixelLayout::Rgb => 3,
        PixelLayout::Rgba => 4,
        PixelLayout::Bgr => 3,
        PixelLayout::Bgra => 4,
        PixelLayout::Palette => 3,
    }
}

/// Bytes that an image of the given size and layout takes.
pub open spec fn bytes_needed(layout: PixelLayout, width: int, height: int) -> int {
    width * height * bytes_per_pixel(layout)
}

/// The upload for an image, or why there is none.
pub open spec fn upload_of(layout: PixelLayout, width: u32, height: u32, byte_count: usize)
    -> Result<TextureUpload, TextureError> {
    if width == 0 || height == 0 || byte_count == 0 {
        Err(TextureError::Empty)
    } else if width > i32::MAX || height > i32::MAX {
        Err(TextureError::TooLarge)
    } else if byte_count < bytes_needed(layout, width as int, height as int) {
        Err(TextureError::TooFewBytes)
    } else {
        Ok(TextureUpload { format: format_of(layout), width: width as i32, height: height as i32 })
    }
}

impl PixelLayout {
    /// The format that the device is given for this layout.
    pub fn format(self) -> (f: TextureFormat)
        ensures
            f == format_of(self),
    {
        match self {
            PixelLayout::Gray => TextureFormat::Red,
            PixelLayout::GrayAlpha => TextureFormat::Rg,
            PixelLayout::Rgb => TextureFormat::Rgb,
            PixelLayout::Rgba => TextureFormat::Rgba,
            PixelLayout::Bgr => TextureFormat::Bgr,
            PixelLayout::Bgra => TextureFormat::Bgra,
            PixelLayout::Palette => TextureFormat::Rgb,
        }
    }

    /// Bytes that one pixel takes.
    pub fn pixel_bytes(self) -> (n: u8)
        ensures
            n == bytes_per_pixel(self),
    {
        match self {
            PixelLayout::Gray => 1,
            PixelLayout::GrayAlpha => 2,
            PixelLayout::Rgb => 3,
            PixelLayout::Rgba => 4,
            PixelLayout::Bgr => 3,
            PixelLayout::Bgra => 4,
            PixelLayout::Palette => 3,
        }
    }
}

/// Checks a decoded image of `width` by `height` pixels in `layout`, held in
/// `byte_count` bytes, and gives the upload for it: the format of the layout
/// and the two sides as the device takes them. An image without pixels, one
/// with a side that the device cannot be told, and one with too few bytes
/// have no upload.
pub fn texture_upload(layout: PixelLayout, width: u32, height: u32, byte_count: usize) -> (r:
    Result<TextureUpload, TextureError>)
    ensures
        r == upload_of(layout, width, height, byte_count),
{
    if width == 0 || height == 0 || byte_count == 0 {
        return Err(TextureError::Empty);
    }
    if width > 0x7fff_ffff || height > 0x7fff_ffff {
        return Err(TextureError::TooLarge);
    }
    assert(width * height <= 0x7fff_ffff * 0x7fff_ffff) by (nonlinear_arith)
        requires
            0 <= width <= 0x7fff_ffff,
            0 <= height <= 0x7fff_ffff,
    ;
    let pixels: u128 = (width as u128) * (height as u128);
    let depth: u128 = layout.pixel_bytes() as u128;
    assert(pixels * depth <= 0x7fff_ffff * 0x7fff_ffff * 4) by (nonlinear_arith)
        requires
            0 <= pixels <= 0x7fff_ffff * 0x7fff_ffff,
            0 <= depth <= 4,
    ;
    let needed: u128 = pixels * depth;
    if (byte_count as u128) < needed {
        return Err(TextureError::TooFewBytes);
    }
    Ok(TextureUpload { format: layout.format(), width: width as i32, height: height as i32 })
}

} // verus!

use lit_scene::texture::{
    texture_upload, PixelLayout, TextureError, TextureFormat, TextureUpload,
};

#[test]
fn colour_layouts_keep_their_format() {
    assert_eq!(PixelLayout::Rgb.format(), TextureFormat::Rgb);
    assert_eq!(PixelLayout::Rgba.format(), TextureFormat::Rgba);
    assert_eq!(PixelLayout::Bgr.format(), TextureFormat::Bgr);
    assert_eq!(PixelLayout::Bgra.format(), TextureFormat::Bgra);
}

#[test]
fn grey_is_a_colour_channel() {
    assert_eq!(PixelLayout::Gray.format(), TextureFormat::Red);
    assert_eq!(PixelLayout::GrayAlpha.format(), TextureFormat::Rg);
}

#[test]
fn palette_colours_are_red_green_blue() {
    assert_eq!(PixelLayout::Palette.format(), TextureFormat::Rgb);
}

#[test]
fn pixel_bytes_of_each_layout() {
    assert_eq!(PixelLayout::Gray.pixel_bytes(), 1);
    assert_eq!(PixelLayout::GrayAlpha.pixel_bytes(), 2);
    assert_eq!(PixelLayout::Rgb.pixel_bytes(), 3);
    assert_eq!(PixelLayout::Rgba.pixel_bytes(), 4);
    assert_eq!(PixelLayout::Bgr.pixel_bytes(), 3);
    assert_eq!(PixelLayout::Bgra.pixel_bytes(), 4);
    assert_eq!(PixelLayout::Palette.pixel_bytes(), 3);
}

#[test]
fn upload_of_a_whole_image() {
    assert_eq!(
        texture_upload(PixelLayout::Rgba, 500, 500, 1_000_000),
        Ok(TextureUpload { format: TextureFormat::Rgba, width: 500, height: 500 })
    );
    assert_eq!(
        texture_upload(PixelLayout::Gray, 3, 2, 6),
        Ok(TextureUpload { format: TextureFormat::Red, width: 3, height: 2 })
    );
}

#[test]
fn upload_with_bytes_to_spare() {
    assert_eq!(
        texture_upload(PixelLayout::Rgb, 2, 2, 13),
        Ok(TextureUpload { format: TextureFormat::Rgb, width: 2, height: 2 })
    );
}

#[test]
fn upload_of_an_image_without_pixels() {
    assert_eq!(texture_upload(PixelLayout::Rgb, 0, 5, 100), Err(TextureError::Empty));
    assert_eq!(texture_upload(PixelLayout::Rgb, 5, 0, 100), Err(TextureError::Empty));
    assert_eq!(texture_upload(PixelLayout::Rgb, 5, 5, 0), Err(TextureError::Empty));
    assert_eq!(texture_upload(PixelLayout::Rgb, u32::MAX, 0, 0), Err(TextureError::Empty));
}

#[test]
fn upload_of_an_image_too_large_to_tell() {
    assert_eq!(
        texture_upload(PixelLayout::Gray, 0x8000_0000, 1, usize::MAX),
        Err(TextureError::TooLarge)
    );
    assert_eq!(
        texture_upload(PixelLayout::Gray, 1, u32::MAX, usize::MAX),
        Err(TextureError::TooLarge)
    );
    assert_eq!(
        texture_upload(PixelLayout::Gray, 0x7fff_ffff, 1, 0x7fff_ffff),
        Ok(TextureUpload { format: TextureFormat::Red, width: i32::MAX, height: 1 })
    );
}

#[test]
fn upload_with_too_few_bytes() {
    assert_eq!(texture_upload(PixelLayout::Rgb, 2, 2, 11), Err(TextureError::TooFewBytes));
    assert_eq!(texture_upload(PixelLayout::Bgra, 10, 10, 399), Err(TextureError::TooFewBytes));
}

#[test]
fn upload_of_the_largest_image() {
    // 4 * (2^31 - 1)^2 bytes are called for
    let needed: u128 = 4 * 0x7fff_ffffu128 * 0x7fff_ffffu128;
    if needed <= usize::MAX as u128 {
        let needed = needed as usize;
        assert_eq!(
            texture_upload(PixelLayout::Rgba, 0x7fff_ffff, 0x7fff_ffff, needed),
            Ok(TextureUpload { format: TextureFormat::Rgba, width: i32::MAX, height: i32::MAX })
        );
        assert_eq!(
            texture_upload(PixelLayout::Rgba, 0x7fff_ffff, 0x7fff_ffff, needed - 1),
            Err(TextureError::TooFewBytes)
        );
    } else {
        assert_eq!(
            texture_upload(PixelLayout::Rgba, 0x7fff_ffff, 0x7fff_ffff, usize::MAX),
            Err(TextureError::TooFewBytes)
        );
    }
}

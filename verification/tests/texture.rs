use toot_3d::ui::citro2d::{
    buffer_offset, color32, morton_interleave, morton_offset, C2dMemError, TexDim, TexDimError,
};
use toot_3d::ui::loader::{Bitmap, ImageLoader, Loader, QrCanvas};
use toot_3d::ui::texture::{AnyTexture, Image, Luminance4, TexColor, Texture, TextureFormat, RGBA8};

#[test]
fn color32_packs_red_lowest() {
    assert_eq!(color32(0x11, 0x22, 0x33, 0x44), 0x44332211);
    assert_eq!(color32(255, 85, 85, 255), 0xff5555ff);
    assert_eq!(color32(0, 0, 0, 0), 0);
}

#[test]
fn to_fit_rounds_up_to_a_power_of_two() {
    let side = |dim: u16| TexDim::to_fit(dim).map(|d| d.get()).ok();
    assert_eq!(side(0), Some(8));
    assert_eq!(side(7), Some(8));
    assert_eq!(side(8), Some(8));
    assert_eq!(side(9), Some(16));
    assert_eq!(side(32), Some(32));
    assert_eq!(side(33), Some(64));
    assert_eq!(side(1000), Some(1024));
    assert_eq!(side(1024), Some(1024));
    assert_eq!(side(1025), None);
    assert_eq!(side(40000), None);
    assert_eq!(side(65535), None);
}

#[test]
fn errors_have_their_texts() {
    assert_eq!(TexDimError.to_string(), "texture dimension too large");
    assert_eq!(C2dMemError.to_string(), "not enough resources for GPU operation");
}

#[test]
fn morton_order_interleaves_the_bits() {
    assert_eq!(morton_interleave(0, 0), 0);
    assert_eq!(morton_interleave(1, 0), 1);
    assert_eq!(morton_interleave(0, 1), 2);
    assert_eq!(morton_interleave(1, 1), 3);
    assert_eq!(morton_interleave(2, 0), 4);
    assert_eq!(morton_interleave(7, 7), 63);
    assert_eq!(morton_interleave(8, 8), 0);
    assert_eq!(morton_interleave(5, 3), 0x11 | 0x0a);
}

#[test]
fn offsets_follow_the_tiles() {
    assert_eq!(morton_offset(0, 0, 4), 0);
    assert_eq!(morton_offset(1, 0, 4), 4);
    assert_eq!(morton_offset(8, 0, 4), 64 * 4);
    assert_eq!(morton_offset(9, 1, 1), 64 + 3);
    // 8 nybbles are 4 bytes for a pixel; a row of tiles is 8 rows
    assert_eq!(buffer_offset(0, 0, 16, 8), 0);
    assert_eq!(buffer_offset(0, 8, 16, 8), 8 * 16 * 4);
    assert_eq!(buffer_offset(9, 9, 16, 8), (64 + 3) * 4 + 8 * 16 * 4);
    assert_eq!(buffer_offset(9, 10, 16, 8), 804);
    // one nybble: offsets count pixels
    assert_eq!(buffer_offset(9, 9, 16, 1), 64 + 3 + 8 * 16);
    // the width need not be one that the GPU takes
    assert_eq!(buffer_offset(2047, 15, 2048, 8), (63 + 64 * 255 + 8 * 2048) * 4);
    assert_eq!(buffer_offset(70003, 9, 80000, 2), 5 + 2 + 64 * 8750 + 8 * 80000);
    assert_eq!(morton_offset(70003, 1, 3), (5 + 2 + 64 * 8750) * 3);
}

#[test]
fn the_pixels_of_a_texture_fill_it_without_gaps() {
    let (width, height) = (24usize, 16usize);
    let mut seen = vec![false; width * height];
    for y in 0..height {
        for x in 0..width {
            let at = buffer_offset(x, y, width, 8);
            assert_eq!(at % 4, 0);
            assert!(at < width * height * 4);
            assert!(!seen[at / 4]);
            seen[at / 4] = true;
        }
    }
    assert!(seen.iter().all(|s| *s));
}

#[test]
fn every_pixel_of_a_texture_has_its_own_place() {
    let mut seen = vec![false; 16 * 8];
    for y in 0..8 {
        for x in 0..16 {
            let at = buffer_offset(x, y, 16, 1);
            assert!(!seen[at]);
            seen[at] = true;
        }
    }
    assert!(seen.iter().all(|s| *s));
}

#[test]
fn rgba8_writes_four_bytes_lowest_first() {
    let mut texture = Texture::new(RGBA8, TexDim::to_fit(8).unwrap(), TexDim::to_fit(8).unwrap());
    texture.set(1, 0, 0x11223344);
    let any = texture.into_any();
    assert_eq!(any.width(), 8);
    assert_eq!(any.height(), 8);
    assert_eq!(any.format(), TexColor::Rgba8);
    assert_eq!(any.data().len(), 8 * 8 * 4);
    assert_eq!(&any.data()[4..8], &[0x44, 0x33, 0x22, 0x11]);
    assert!(any.data()[..4].iter().all(|b| *b == 0));
    assert!(any.data()[8..].iter().all(|b| *b == 0));
}

#[test]
fn luminance4_packs_two_pixels_in_a_byte() {
    let mut data = vec![0xffu8; 32];
    Luminance4::set(&mut data, 0, 0, 8, 0x3);
    assert_eq!(data[0], 0xf3);
    Luminance4::set(&mut data, 1, 0, 8, 0x5);
    assert_eq!(data[0], 0x53);
    // only the low four bits of a pixel are written
    Luminance4::set(&mut data, 0, 1, 8, 0xa7);
    assert_eq!(data[1], 0xf7);
    assert_eq!(Luminance4::size(), 1);
    assert_eq!(RGBA8::size(), 8);
    assert_eq!(Luminance4::color(), TexColor::L4);
}

#[test]
fn textures_start_blank_and_unfiltered() {
    let mut any = AnyTexture::new(TexDim::to_fit(9).unwrap(), TexDim::to_fit(3).unwrap(), TexColor::L4);
    assert_eq!((any.width(), any.height()), (16, 8));
    assert_eq!(any.data().len(), 16 * 8 / 2);
    assert!(any.data().iter().all(|b| *b == 0));
    assert!(!any.filter());
    any.set_filter(true);
    assert!(any.filter());
}

#[test]
fn build_writes_the_rows_of_a_picture() {
    // three by two pixels in a texture of eight by eight
    let pixels: Vec<u32> = vec![1, 2, 3, 4, 5, 6];
    let image = Image::build(RGBA8, 3, 2, &pixels).ok().unwrap();
    assert_eq!((image.width(), image.height()), (3, 2));
    let texture = image.texture();
    assert_eq!((texture.width(), texture.height()), (8, 8));
    let at = |x: usize, y: usize| texture.data()[buffer_offset(x, y, 8, 8)];
    assert_eq!(at(0, 0), 1);
    assert_eq!(at(1, 0), 2);
    assert_eq!(at(2, 0), 3);
    assert_eq!(at(0, 1), 4);
    assert_eq!(at(2, 1), 6);
    assert_eq!(at(3, 0), 0);
}

#[test]
fn build_refuses_sides_over_the_limit() {
    let pixels: Vec<u8> = vec![0; 1025];
    assert!(Image::build(Luminance4, 1025, 1, &pixels).is_err());
    assert!(Image::build(Luminance4, 1, 1025, &pixels).is_err());
    let pixels: Vec<u8> = vec![0; 1024];
    assert!(Image::build(Luminance4, 1024, 1, &pixels).is_ok());
}

#[test]
fn bitmap_reads_pixels_with_red_highest() {
    let bytes = vec![0x11, 0x22, 0x33, 0x44, 0xaa, 0xbb, 0xcc, 0xdd];
    let bitmap = Bitmap::from_rgba(2, 1, &bytes).unwrap();
    assert_eq!((bitmap.get_width(), bitmap.get_height()), (2, 1));
    let image = bitmap.load().ok().unwrap();
    let data = image.texture().data();
    // the GPU reads alpha first
    assert_eq!(&data[0..4], &[0x44, 0x33, 0x22, 0x11]);
    assert_eq!(&data[4..8], &[0xdd, 0xcc, 0xbb, 0xaa]);
    assert_eq!(image.texture().format(), TexColor::Rgba8);
}

#[test]
fn bitmap_wants_four_bytes_for_each_pixel() {
    assert!(Bitmap::from_rgba(2, 2, &vec![0; 15]).is_none());
    assert!(Bitmap::from_rgba(2, 2, &vec![0; 16]).is_some());
    assert!(Bitmap::from_rgba(70000, 1, &vec![0; 280000]).is_none());
    assert!(Bitmap::from_rgba(0, 0, &vec![]).is_some());
}

#[test]
fn qr_canvas_is_light_but_for_the_dark_modules() {
    let mut canvas = QrCanvas::new(3, 2);
    canvas.draw_dark_pixel(1, 0);
    canvas.draw_dark_pixel(2, 1);
    canvas.draw_dark_pixel(3, 0); // outside
    canvas.draw_dark_pixel(0, 2); // outside
    assert_eq!((canvas.get_width(), canvas.get_height()), (3, 2));
    let image = Loader::Code(canvas).load().ok().unwrap();
    assert_eq!((image.width(), image.height()), (3, 2));
    let texture = image.texture();
    assert_eq!(texture.format(), TexColor::L4);
    assert!(!texture.filter());
    let pixel = |x: usize, y: usize| {
        let at = buffer_offset(x, y, 8, 1);
        (texture.data()[at / 2] >> (4 * (at % 2))) & 0xf
    };
    assert_eq!(pixel(0, 0), 15);
    assert_eq!(pixel(1, 0), 0);
    assert_eq!(pixel(2, 0), 15);
    assert_eq!(pixel(0, 1), 15);
    assert_eq!(pixel(2, 1), 0);
}

#[test]
fn qr_canvas_over_the_limit_cannot_be_loaded() {
    assert!(QrCanvas::new(1025, 1).load().is_err());
}

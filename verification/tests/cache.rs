use std::io::Cursor;
use toot_3d::error::ClientError;
use toot_3d::net::retriever::{HttpError, Method};
use toot_3d::ui::loader::{ImageLoader, Loader};
use toot_3d::ui::mailbox::{Mailbox, UiMsg};
use toot_3d::ui::pool::LogicImgPool;
use toot_3d::ui::web_image::{
    accepts, convert_image, decode_picture, has_whole_samples, needs_resize, picture_of,
    WebImageCache,
};
use toot_3d::ui::decode::{ColorKind, FormatKind};

type Box3 = Mailbox<u8, u8, u8>;

fn png(width: u32, height: u32, rgba: [u8; 4]) -> Vec<u8> {
    let picture = image::RgbaImage::from_pixel(width, height, image::Rgba(rgba));
    let mut out = Cursor::new(Vec::new());
    picture.write_to(&mut out, image::ImageOutputFormat::Png).unwrap();
    out.into_inner()
}

fn encoded(width: u32, height: u32, format: image::ImageOutputFormat) -> Vec<u8> {
    let picture = image::RgbImage::from_pixel(width, height, image::Rgb([200, 100, 50]));
    let mut out = Cursor::new(Vec::new());
    picture.write_to(&mut out, format).unwrap();
    out.into_inner()
}

fn wish(url: &str, max: Option<u16>) -> (String, Option<u16>) {
    (url.to_string(), max)
}

#[test]
fn a_picture_is_fetched_again_after_its_last_handle_went_back() {
    let mut cache = WebImageCache::new();
    let mut pool = LogicImgPool::new();
    let mut mailbox = Box3::new();
    let wishes = vec![wish("https://x/a.png", Some(32))];
    let mut fetches = 0;
    for _ in 0..2 {
        let requests = cache.requests(&wishes);
        assert_eq!(requests.len(), 1);
        assert_eq!(requests[0].url, "https://x/a.png");
        assert!(matches!(requests[0].method, Method::Get));
        fetches += requests.len();
        let responses = vec![Ok(png(4, 4, [1, 2, 3, 4]))];
        let mut handles = cache.get(&mut pool, &mut mailbox, &wishes, responses).ok().unwrap();
        assert_eq!(handles.len(), 1);
        assert!(cache.contains(&"https://x/a.png".to_string()));
        cache.release(handles.pop().unwrap(), &mut pool, &mut mailbox);
        assert!(!cache.contains(&"https://x/a.png".to_string()));
    }
    assert_eq!(fetches, 2);
}

#[test]
fn the_same_url_twice_is_fetched_once_and_shares_the_picture() {
    let mut cache = WebImageCache::new();
    let mut pool = LogicImgPool::new();
    let mut mailbox = Box3::new();
    let wishes = vec![wish("u", None), wish("v", None), wish("u", None)];
    let requests = cache.requests(&wishes);
    let urls: Vec<&str> = requests.iter().map(|r| r.url.as_str()).collect();
    assert_eq!(urls, vec!["u", "v"]);
    let responses = vec![Ok(png(2, 3, [9, 9, 9, 9])), Ok(png(5, 1, [8, 8, 8, 8]))];
    let mut handles = cache.get(&mut pool, &mut mailbox, &wishes, responses).ok().unwrap();
    assert_eq!(handles.len(), 3);
    assert_eq!(handles[0].get_url(), "u");
    assert_eq!(handles[1].get_url(), "v");
    assert_eq!(handles[2].get_url(), "u");
    assert_eq!(handles[0].get_image(), handles[2].get_image());
    assert_ne!(handles[0].get_image(), handles[1].get_image());
    assert_eq!((handles[0].get_width(), handles[0].get_height()), (2, 3));
    assert_eq!((handles[1].get_width(), handles[1].get_height()), (5, 1));
    // with both pictures in the cache nothing is fetched
    assert!(cache.requests(&wishes).is_empty());
    let more = cache.get(&mut pool, &mut mailbox, &wishes, vec![]).ok().unwrap();
    assert_eq!(more[0].get_image(), handles[0].get_image());
    // "u" has four handles out and stays until the last one is back
    for handle in more {
        cache.release(handle, &mut pool, &mut mailbox);
    }
    assert!(cache.contains(&"u".to_string()));
    assert!(cache.contains(&"v".to_string()));
    let last = handles.remove(0);
    for handle in handles {
        cache.release(handle, &mut pool, &mut mailbox);
    }
    assert!(cache.contains(&"u".to_string()));
    assert!(!cache.contains(&"v".to_string()));
    cache.release(last, &mut pool, &mut mailbox);
    assert!(!cache.contains(&"u".to_string()));
    assert_eq!(cache.requests(&wishes).len(), 2);
}

#[test]
fn releasing_the_last_handle_gives_the_number_back() {
    let mut cache = WebImageCache::new();
    let mut pool = LogicImgPool::new();
    let mut mailbox = Box3::new();
    let wishes = vec![wish("u", None)];
    let mut handles =
        cache.get(&mut pool, &mut mailbox, &wishes, vec![Ok(png(1, 1, [0; 4]))]).ok().unwrap();
    let id = handles[0].get_image();
    cache.release(handles.pop().unwrap(), &mut pool, &mut mailbox);
    let (batch, _) = mailbox.drain_once();
    assert_eq!(batch.len(), 2);
    assert!(matches!(&batch[0], UiMsg::LoadImage(n, Loader::Bitmap(_)) if *n == id));
    assert!(matches!(&batch[1], UiMsg::UnloadImage(n) if *n == id));
    // the number is free again
    let handles =
        cache.get(&mut pool, &mut mailbox, &wishes, vec![Ok(png(1, 1, [0; 4]))]).ok().unwrap();
    assert_eq!(handles[0].get_image(), id);
}

#[test]
fn one_failure_fails_the_whole_call() {
    let mut cache = WebImageCache::new();
    let mut pool = LogicImgPool::new();
    let mut mailbox = Box3::new();
    let wishes = vec![wish("good", None), wish("bad", None), wish("late", None)];
    let responses = vec![
        Ok(png(1, 1, [0; 4])),
        Err(ClientError::Http(HttpError(404))),
        Ok(png(1, 1, [0; 4])),
    ];
    let result = cache.get(&mut pool, &mut mailbox, &wishes, responses);
    assert!(matches!(result, Err(ClientError::Http(HttpError(404)))));
    // what was put in before the failure stays
    assert!(cache.contains(&"good".to_string()));
    assert!(!cache.contains(&"bad".to_string()));
    assert!(!cache.contains(&"late".to_string()));
    let responses = vec![Ok(b"no picture".to_vec())];
    let result = cache.get(&mut pool, &mut mailbox, &vec![wish("bad", None)], responses);
    assert!(matches!(result, Err(ClientError::Image(_))));
}

#[test]
fn pictures_are_scaled_down_to_the_size_asked_for() {
    let mut pool = LogicImgPool::new();
    let mut mailbox = Box3::new();
    let bytes = png(64, 32, [10, 20, 30, 40]);
    let (w, h, handle) = convert_image(&mut pool, &mut mailbox, &bytes, Some(32)).ok().unwrap();
    assert_eq!((w, h), (32, 16));
    assert_eq!(handle.get_id(), 0);
    let (w, h, handle) = convert_image(&mut pool, &mut mailbox, &bytes, Some(64)).ok().unwrap();
    assert_eq!((w, h, handle.get_id()), (64, 32, 1));
    let (w, h, _) = convert_image(&mut pool, &mut mailbox, &bytes, None).ok().unwrap();
    assert_eq!((w, h), (64, 32));
    // no picture fits in no pixels: what the scaling leaves is still too large
    let result = convert_image(&mut pool, &mut mailbox, &bytes, Some(0));
    assert!(matches!(result, Err(ClientError::BadImage)));
    let (batch, _) = mailbox.drain_once();
    assert_eq!(batch.len(), 3);
    match batch.into_iter().next().unwrap() {
        UiMsg::LoadImage(0, loader) => {
            let image = loader.load().ok().unwrap();
            assert_eq!((image.width(), image.height()), (32, 16));
            // alpha first, red last
            assert_eq!(&image.texture().data()[0..4], &[40, 30, 20, 10]);
        }
        _ => panic!("no picture to load"),
    }
}

#[test]
fn pictures_over_the_limit_are_not_decoded() {
    let mut pool = LogicImgPool::new();
    let mut mailbox = Box3::new();
    let bytes = png(1025, 1, [0; 4]);
    let result = convert_image(&mut pool, &mut mailbox, &bytes, Some(32));
    assert!(matches!(result, Err(ClientError::Image(_))));
    assert_eq!(mailbox.len(), 0);
    let bytes = png(1024, 1, [0; 4]);
    assert!(convert_image(&mut pool, &mut mailbox, &bytes, Some(32)).is_ok());
}

#[test]
fn a_picture_is_too_large_if_a_side_is() {
    assert!(needs_resize(33, 1, Some(32)));
    assert!(needs_resize(1, 33, Some(32)));
    assert!(!needs_resize(32, 32, Some(32)));
    assert!(!needs_resize(5000, 5000, None));
    assert!(needs_resize(1, 1, Some(0)));
}

#[test]
fn picture_of_keeps_the_pixels() {
    let picture = image::RgbaImage::from_fn(2, 2, |x, y| image::Rgba([x as u8, y as u8, 7, 255]));
    let bitmap = picture_of(image::DynamicImage::ImageRgba8(picture), Some(2)).ok().unwrap();
    assert_eq!((bitmap.get_width(), bitmap.get_height()), (2, 2));
    let image = bitmap.load().ok().unwrap();
    let data = image.texture().data();
    assert_eq!(&data[0..4], &[255, 7, 0, 0]);
    assert_eq!(&data[4..8], &[255, 7, 0, 1]);
    assert_eq!(&data[8..12], &[255, 7, 1, 0]);
}

#[test]
fn png_jpeg_and_gif_are_taken() {
    let mut pool = LogicImgPool::new();
    let mut mailbox = Box3::new();
    for format in [
        image::ImageOutputFormat::Png,
        image::ImageOutputFormat::Jpeg(90),
        image::ImageOutputFormat::Gif,
    ] {
        let bytes = encoded(6, 4, format);
        let (w, h, _) = convert_image(&mut pool, &mut mailbox, &bytes, None).ok().unwrap();
        assert_eq!((w, h), (6, 4));
    }
    assert!(accepts(FormatKind::Png) && accepts(FormatKind::Jpeg) && accepts(FormatKind::Gif));
    assert!(!accepts(FormatKind::Other));
}

#[test]
fn other_formats_are_not_decoded() {
    let mut pool = LogicImgPool::new();
    let mut mailbox = Box3::new();
    let mut others = vec![
        encoded(6, 4, image::ImageOutputFormat::Bmp),
        encoded(6, 4, image::ImageOutputFormat::Tiff),
        encoded(6, 4, image::ImageOutputFormat::Qoi),
    ];
    // a picture with float samples, one of which is no number
    let floats = image::Rgb32FImage::from_pixel(6, 4, image::Rgb([f32::NAN, 0.5, 2.0]));
    let mut out = Cursor::new(Vec::new());
    floats.write_to(&mut out, image::ImageOutputFormat::OpenExr).unwrap();
    others.push(out.into_inner());
    for bytes in others {
        let result = convert_image(&mut pool, &mut mailbox, &bytes, None);
        assert!(matches!(result, Err(ClientError::Format)));
        assert!(matches!(decode_picture(&bytes), Err(ClientError::Format)));
    }
    // bytes that are the mark of no format, and bytes that only begin as a picture
    assert!(matches!(decode_picture(b"no picture"), Err(ClientError::Image(_))));
    assert!(matches!(decode_picture(b""), Err(ClientError::Image(_))));
    let mut cut = png(4, 4, [1, 2, 3, 4]);
    cut.truncate(20);
    assert!(matches!(decode_picture(&cut), Err(ClientError::Image(_))));
    assert_eq!(mailbox.len(), 0);
    let whole = decode_picture(&png(4, 3, [1, 2, 3, 4])).ok().unwrap();
    assert_eq!((whole.width(), whole.height()), (4, 3));
}

#[test]
fn a_picture_with_float_samples_cannot_be_shown() {
    let floats = image::Rgb32FImage::from_pixel(2, 2, image::Rgb([f32::NAN, 0.5, 2.0]));
    let result = picture_of(image::DynamicImage::ImageRgb32F(floats), None);
    assert!(matches!(result, Err(ClientError::BadImage)));
    let floats = image::Rgba32FImage::from_pixel(40, 40, image::Rgba([0.1, 0.5, 0.9, 1.0]));
    let result = picture_of(image::DynamicImage::ImageRgba32F(floats), Some(32));
    assert!(matches!(result, Err(ClientError::BadImage)));
    assert!(!has_whole_samples(ColorKind::Rgb32F));
    assert!(!has_whole_samples(ColorKind::Rgba32F));
    assert!(!has_whole_samples(ColorKind::Other));
    assert!(has_whole_samples(ColorKind::L8) && has_whole_samples(ColorKind::Rgba16));
}

#[test]
fn pictures_of_all_whole_samples_are_shown() {
    let grey = image::GrayImage::from_pixel(2, 1, image::Luma([7]));
    let bitmap = picture_of(image::DynamicImage::ImageLuma8(grey), None).ok().unwrap();
    let image = bitmap.load().ok().unwrap();
    assert_eq!(&image.texture().data()[0..4], &[255, 7, 7, 7]);
    let deep = image::ImageBuffer::<image::Rgb<u16>, Vec<u16>>::from_pixel(
        1,
        1,
        image::Rgb([0xffff, 0, 0x8000]),
    );
    let bitmap = picture_of(image::DynamicImage::ImageRgb16(deep), None).ok().unwrap();
    let image = bitmap.load().ok().unwrap();
    assert_eq!(&image.texture().data()[0..4], &[255, 128, 0, 255]);
}

#[test]
fn no_side_of_a_picture_is_longer_than_asked_for() {
    let mut pool = LogicImgPool::new();
    let mut mailbox = Box3::new();
    for (width, height) in [(64u32, 32u32), (32, 64), (33, 33), (1000, 3), (1, 1), (32, 32)] {
        let bytes = png(width, height, [0; 4]);
        let (w, h, _) = convert_image(&mut pool, &mut mailbox, &bytes, Some(32)).ok().unwrap();
        assert!(w <= 32 && h <= 32, "{}x{} became {}x{}", width, height, w, h);
        assert!(w == 32 || h == 32 || (width <= 32 && height <= 32));
    }
}

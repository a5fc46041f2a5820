use image::Pixel;
use token_maker::frame_maker::create_mask;
use token_maker::image::convert::{grayscale_to_rgba, mask_to_rgba};
use token_maker::image::operations::{blend_images, flood_fill_mask, mask_image, underlay_color, underlay_image};
use token_maker::image::{image_filter, GrayscaleImage, ImageFormat, RgbaImage};

fn rgba(width: u32, height: u32, pixels: &[[u8; 4]]) -> RgbaImage {
    let data: Vec<u8> = pixels.iter().flat_map(|p| p.iter().copied()).collect();
    RgbaImage::from_raw(width, height, data).unwrap()
}

fn gray(width: u32, height: u32, values: &[u8]) -> GrayscaleImage {
    GrayscaleImage::from_raw(width, height, values.to_vec()).unwrap()
}

fn blended(bottom: [u8; 4], top: [u8; 4]) -> [u8; 4] {
    let mut p = image::Rgba(bottom);
    p.blend(&image::Rgba(top));
    p.0
}

#[test]
fn from_raw_checks_the_size() {
    assert!(RgbaImage::from_raw(2, 1, vec![0; 8]).is_some());
    assert!(RgbaImage::from_raw(2, 1, vec![0; 7]).is_none());
    assert!(GrayscaleImage::from_raw(2, 2, vec![0; 4]).is_some());
    assert!(GrayscaleImage::from_raw(2, 2, vec![0; 5]).is_none());
    let img = RgbaImage::from_pixel(2, 2, [9, 8, 7, 6]);
    assert_eq!(img.pixel(3), [9, 8, 7, 6]);
    assert_eq!(img.as_raw().len(), 16);
}

#[test]
fn mask_scales_color_and_sets_alpha() {
    let img = rgba(3, 1, &[[200, 100, 50, 255], [10, 20, 30, 40], [1, 2, 3, 4]]);
    let mask = gray(3, 1, &[128, 255, 100]);
    let out = mask_image(img, &mask);
    assert_eq!(out.pixel(0), [100, 50, 25, 128]);
    assert_eq!(out.pixel(1), [10, 20, 30, 40]);
    assert_eq!(out.pixel(2), [1, 2, 3, 4]);
}

#[test]
fn full_mask_leaves_image_unchanged() {
    let pixels = [[200, 100, 50, 255], [10, 20, 30, 40]];
    let out = mask_image(rgba(2, 1, &pixels), &gray(2, 1, &[255, 255]));
    assert_eq!(out.as_raw(), rgba(2, 1, &pixels).as_raw());
}

#[test]
fn blend_draws_overlay_over_image() {
    let base = rgba(2, 1, &[[0, 0, 255, 255], [10, 10, 10, 255]]);
    let overlay = rgba(2, 1, &[[255, 0, 0, 128], [1, 2, 3, 0]]);
    let out = blend_images(base, &overlay);
    assert_eq!(out.pixel(0), blended([0, 0, 255, 255], [255, 0, 0, 128]));
    assert_ne!(out.pixel(0), [0, 0, 255, 255]);
    assert_eq!(out.pixel(1), [10, 10, 10, 255]);
}

#[test]
fn underlay_color_fills_transparency() {
    let img = rgba(2, 1, &[[255, 0, 0, 128], [1, 2, 3, 255]]);
    let out = underlay_color(img, 0, 0, 255);
    assert_eq!(out.pixel(0), blended([0, 0, 255, 255], [255, 0, 0, 128]));
    assert_ne!(out.pixel(0), [255, 0, 0, 128]);
    assert_eq!(out.pixel(1), [1, 2, 3, 255]);
}

#[test]
fn underlay_image_fills_transparency() {
    let img = rgba(1, 1, &[[0, 0, 0, 0]]);
    let under = rgba(1, 1, &[[5, 6, 7, 255]]);
    let out = underlay_image(img, &under);
    assert_eq!(out.pixel(0), [5, 6, 7, 255]);
}

#[test]
fn grayscale_conversions() {
    let m = gray(2, 1, &[0, 200]);
    assert_eq!(grayscale_to_rgba(&m).as_raw(), &vec![0, 0, 0, 255, 200, 200, 200, 255]);
    assert_eq!(mask_to_rgba(&m).as_raw(), &vec![0, 0, 0, 0, 200, 200, 200, 200]);
}

#[test]
fn flood_fill_spreads_through_accepted_pixels_only() {
    // row: transparent, transparent, opaque, transparent
    let img = rgba(4, 1, &[[0, 0, 0, 0], [0, 0, 0, 0], [0, 0, 0, 255], [0, 0, 0, 0]]);
    let mask = flood_fill_mask(&img, (0, 0), 0, |s: &[u8]| if s[3] < 255 { Some(255) } else { None });
    assert_eq!(mask.as_raw(), &vec![255, 255, 0, 0]);
    assert_eq!(mask.width(), 4);
}

#[test]
fn flood_fill_goes_around_corners() {
    // 3x3 with an opaque wall in the middle column except the bottom
    let t = [0, 0, 0, 0];
    let o = [0, 0, 0, 255];
    let img = rgba(3, 3, &[t, o, t, t, o, t, t, t, t]);
    let mask = flood_fill_mask(&img, (0, 0), 0, |s: &[u8]| if s[3] < 255 { Some(255) } else { None });
    assert_eq!(mask.as_raw(), &vec![255, 0, 255, 255, 0, 255, 255, 255, 255]);
}

#[test]
fn flood_fill_from_opaque_pixel_fills_nothing() {
    let img = rgba(2, 1, &[[0, 0, 0, 255], [0, 0, 0, 0]]);
    let mask = flood_fill_mask(&img, (0, 0), 0, |s: &[u8]| if s[3] < 255 { Some(255) } else { None });
    assert_eq!(mask.as_raw(), &vec![0, 0]);
}

#[test]
fn create_mask_previews_checkerboard() {
    let img = rgba(3, 1, &[[0, 0, 0, 0], [0, 0, 0, 0], [1, 2, 3, 255]]);
    let (preview, mask) = create_mask(img, (0, 0));
    assert_eq!(mask.as_raw(), &vec![255, 255, 0]);
    assert_eq!(preview.pixel(0), [158, 158, 158, 255]);
    assert_eq!(preview.pixel(1), [158, 158, 158, 255]);
    assert_eq!(preview.pixel(2), [1, 2, 3, 255]);
}

#[test]
fn checkerboard_darkens_every_other_square() {
    let img = RgbaImage::from_pixel(60, 1, [0, 0, 0, 0]);
    let (preview, _) = create_mask(img, (0, 0));
    assert_eq!(preview.pixel(0), [158, 158, 158, 255]);
    assert_eq!(preview.pixel(55), [128, 128, 128, 255]);
}

#[test]
fn image_filter_accepts_image_extensions() {
    assert!(image_filter("a/b.png"));
    assert!(image_filter("a/b.JPG"));
    assert!(image_filter("x.webp"));
    assert!(image_filter("x.jpeg"));
    assert!(!image_filter("x.gif"));
    assert!(!image_filter("png"));
    assert_eq!(ImageFormat::WebP.name(), "webp");
    assert_eq!(ImageFormat::EXPORTABLE.len(), 3);
}

#[test]
fn opaque_overlay_covers_and_transparent_background_shows() {
    let base = rgba(2, 1, &[[9, 9, 9, 255], [9, 9, 9, 255]]);
    let overlay = rgba(2, 1, &[[1, 2, 3, 255], [1, 2, 3, 0]]);
    let out = blend_images(base, &overlay);
    assert_eq!(out.pixel(0), [1, 2, 3, 255]);
    assert_eq!(out.pixel(1), [9, 9, 9, 255]);
    let clear = underlay_color(rgba(1, 1, &[[5, 5, 5, 0]]), 7, 8, 9);
    assert_eq!(clear.pixel(0), [7, 8, 9, 255]);
}

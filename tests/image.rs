use sombervale::geometry::Point2;
use sombervale::image::{blit, color_multiply, scale_channel, Image, Rgba, FULL_BRIGHTNESS};

fn solid(w: usize, h: usize, rgba: [u8; 4]) -> Image {
    let mut data = Vec::new();
    for _ in 0..w * h {
        data.extend_from_slice(&rgba);
    }
    Image::new(data, w, h).unwrap()
}

fn pixel(img: &Image, x: usize, y: usize) -> [u8; 4] {
    let i = (y * img.width() + x) * 4;
    let d = img.data();
    [d[i], d[i + 1], d[i + 2], d[i + 3]]
}

#[test]
fn image_size_is_checked() {
    assert!(Image::new(vec![0; 16], 2, 2).is_some());
    assert!(Image::new(vec![0; 15], 2, 2).is_none());
}

#[test]
fn blit_copies_opaque_pixels() {
    let mut dest = Image::blank(4, 4);
    let src = solid(2, 2, [10, 20, 30, 0xff]);
    blit(&mut dest, Point2::new(1, 1), &src, Point2::new(0, 0), Point2::new(2, 2), FULL_BRIGHTNESS);
    assert_eq!(pixel(&dest, 1, 1), [10, 20, 30, 0xff]);
    assert_eq!(pixel(&dest, 2, 2), [10, 20, 30, 0xff]);
    assert_eq!(pixel(&dest, 0, 0), [0, 0, 0, 0]);
    assert_eq!(pixel(&dest, 3, 3), [0, 0, 0, 0]);
}

#[test]
fn blit_skips_transparent_pixels() {
    let mut dest = solid(2, 2, [1, 1, 1, 0xff]);
    let src = solid(2, 2, [200, 200, 200, 0xfe]);
    blit(&mut dest, Point2::new(0, 0), &src, Point2::new(0, 0), Point2::new(2, 2), FULL_BRIGHTNESS);
    assert_eq!(pixel(&dest, 0, 0), [1, 1, 1, 0xff]);
}

#[test]
fn blit_clips_negative_destination() {
    let mut dest = Image::blank(3, 3);
    let src = solid(3, 3, [9, 9, 9, 0xff]);
    blit(&mut dest, Point2::new(-2, -2), &src, Point2::new(0, 0), Point2::new(3, 3), FULL_BRIGHTNESS);
    assert_eq!(pixel(&dest, 0, 0), [9, 9, 9, 0xff]);
    assert_eq!(pixel(&dest, 1, 0), [0, 0, 0, 0]);
    assert_eq!(pixel(&dest, 0, 1), [0, 0, 0, 0]);
    assert_eq!(dest.data().len(), 36);
}

#[test]
fn blit_clips_every_offset_without_panicking() {
    let src = solid(3, 3, [9, 9, 9, 0xff]);
    for dx in -5..6 {
        for sx in -5..6 {
            let mut dest = Image::blank(3, 3);
            blit(&mut dest, Point2::new(dx, dx), &src, Point2::new(sx, -sx), Point2::new(3, 3), 128);
            assert_eq!(dest.data().len(), 36);
        }
    }
}

#[test]
fn blit_negative_source_offset_shifts() {
    let mut dest = Image::blank(3, 1);
    let mut data = vec![0u8; 12];
    data[0..4].copy_from_slice(&[1, 2, 3, 0xff]);
    let src = Image::new(data, 3, 1).unwrap();
    blit(&mut dest, Point2::new(0, 0), &src, Point2::new(-1, 0), Point2::new(3, 1), FULL_BRIGHTNESS);
    assert_eq!(pixel(&dest, 1, 0), [1, 2, 3, 0xff]);
    assert_eq!(pixel(&dest, 0, 0), [0, 0, 0, 0]);
}

#[test]
fn blit_scales_brightness() {
    let mut dest = Image::blank(1, 1);
    let src = solid(1, 1, [200, 100, 50, 0xff]);
    blit(&mut dest, Point2::new(0, 0), &src, Point2::new(0, 0), Point2::new(1, 1), 128);
    assert_eq!(pixel(&dest, 0, 0), [100, 50, 25, 0xff]);
}

#[test]
fn color_multiply_keeps_alpha() {
    let c = color_multiply(Rgba { r: 255, g: 10, b: 0, a: 77 }, 0);
    assert_eq!(c, Rgba { r: 0, g: 0, b: 0, a: 77 });
    assert_eq!(scale_channel(255, 256), 255);
    assert_eq!(scale_channel(255, 64), 63);
}

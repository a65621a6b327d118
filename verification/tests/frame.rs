use momentum_app::frame::{letterboxed, resolve_format};
use momentum_app::frame::{blit, convert_pixel, crop_plan, zero_fill, CropPlan, PixelConv};

#[test]
fn larger_sources_are_cropped_around_the_centre() {
    assert_eq!(
        crop_plan(1920, 1080, 1280, 720),
        CropPlan { copy_w: 1280, copy_h: 720, src_x: 320, src_y: 180, dst_x: 0, dst_y: 0 }
    );
}

#[test]
fn smaller_sources_are_letterboxed() {
    assert_eq!(
        crop_plan(800, 600, 1920, 1080),
        CropPlan { copy_w: 800, copy_h: 600, src_x: 0, src_y: 0, dst_x: 560, dst_y: 240 }
    );
    assert_eq!(
        crop_plan(1921, 5, 1920, 8),
        CropPlan { copy_w: 1920, copy_h: 5, src_x: 0, src_y: 0, dst_x: 0, dst_y: 1 }
    );
}

#[test]
fn pixel_conversions() {
    assert_eq!(convert_pixel(PixelConv::Bgra, 1, 2, 3, 4), (1, 2, 3, 4));
    assert_eq!(convert_pixel(PixelConv::Rgba, 1, 2, 3, 4), (3, 2, 1, 4));
    assert_eq!(convert_pixel(PixelConv::Rgb10a2, 0, 0, 0, 0), (0, 0, 0, 255));
    // red = 0x3FF, green = 0, blue = 0
    assert_eq!(convert_pixel(PixelConv::Rgb10a2, 0xFF, 0x03, 0, 0), (0, 0, 255, 255));
    // blue = 0x3FF in bits 20..29
    assert_eq!(convert_pixel(PixelConv::Rgb10a2, 0, 0, 0xF0, 0x3F), (255, 0, 0, 255));
}

#[test]
fn a_small_frame_lands_in_the_middle() {
    let src: Vec<u8> = (1..=16).collect();
    let mut dst = vec![0u8; 64];
    let p = crop_plan(2, 2, 4, 4);
    blit(&mut dst, &src, 8, 4, p, PixelConv::Bgra);
    let mut expect = vec![0u8; 64];
    expect[20..28].copy_from_slice(&src[0..8]);
    expect[36..44].copy_from_slice(&src[8..16]);
    assert_eq!(dst, expect);
}

#[test]
fn rows_past_the_source_are_not_copied() {
    let src: Vec<u8> = (1..=12).collect();
    let mut dst = vec![9u8; 16];
    let p = CropPlan { copy_w: 2, copy_h: 2, src_x: 0, src_y: 0, dst_x: 0, dst_y: 0 };
    blit(&mut dst, &src, 8, 2, p, PixelConv::Rgba);
    assert_eq!(&dst[0..8], &[3, 2, 1, 4, 7, 6, 5, 8]);
    assert_eq!(&dst[8..16], &[9u8; 8]);
}

#[test]
fn zero_fill_clears_everything() {
    let mut d = vec![7u8; 10];
    zero_fill(&mut d);
    assert_eq!(d, vec![0u8; 10]);
}

#[test]
fn texture_formats() {
    assert_eq!(resolve_format(87), Some((87, PixelConv::Bgra)));
    assert_eq!(resolve_format(91), Some((87, PixelConv::Bgra)));
    assert_eq!(resolve_format(29), Some((28, PixelConv::Rgba)));
    assert_eq!(resolve_format(23), Some((24, PixelConv::Rgb10a2)));
    assert_eq!(resolve_format(2), None);
    assert!(letterboxed(1280, 720, 1920, 1080));
    assert!(!letterboxed(1920, 1080, 1920, 1080));
}

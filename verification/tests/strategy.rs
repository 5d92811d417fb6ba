//! Display strategies and framebuffers built through them.

use fovea_display::{
    Bgr8, Bgra8, DisplayPixel, DisplayStrategy, Framebuffer, Identity, Image, LinearToDisplay,
    Mono8, Rgb8, Rgba8, Srgb8, SrgbMono8, SrgbMonoA8, Srgba8,
};

// ── Identity ────────────────────────────────────────────────────────────────

#[test]
fn identity_srgba8_passthrough() {
    let px = Srgba8::new(42, 100, 200, 128);
    assert_eq!(Identity.to_display(&px), px);
}

#[test]
fn identity_srgba8_all_values_preserved() {
    for r in [0u8, 1, 127, 128, 254, 255] {
        for g in [0u8, 128, 255] {
            for b in [0u8, 128, 255] {
                for a in [0u8, 128, 255] {
                    let px = Srgba8::new(r, g, b, a);
                    assert_eq!(Identity.to_display(&px), px);
                }
            }
        }
    }
}

#[test]
fn identity_srgb8_adds_alpha() {
    let px = Srgb8::new(128, 64, 200);
    assert_eq!(Identity.to_display(&px), Srgba8::new(128, 64, 200, 255));
}

#[test]
fn identity_srgb8_black() {
    let px = Srgb8::new(0, 0, 0);
    assert_eq!(Identity.to_display(&px), Srgba8::new(0, 0, 0, 255));
}

#[test]
fn identity_srgb8_white() {
    let px = Srgb8::new(255, 255, 255);
    assert_eq!(Identity.to_display(&px), Srgba8::new(255, 255, 255, 255));
}

#[test]
fn identity_srgb_mono8_broadcast() {
    let px = SrgbMono8::new(128);
    assert_eq!(Identity.to_display(&px), Srgba8::new(128, 128, 128, 255));
}

#[test]
fn identity_srgb_mono8_black() {
    let px = SrgbMono8::new(0);
    assert_eq!(Identity.to_display(&px), Srgba8::new(0, 0, 0, 255));
}

#[test]
fn identity_srgb_mono8_white() {
    let px = SrgbMono8::new(255);
    assert_eq!(Identity.to_display(&px), Srgba8::new(255, 255, 255, 255));
}

#[test]
fn identity_srgb_mono_a8_broadcast_with_alpha() {
    let px = SrgbMonoA8::new(128, 64);
    assert_eq!(Identity.to_display(&px), Srgba8::new(128, 128, 128, 64));
}

#[test]
fn identity_srgb_mono_a8_black_transparent() {
    let px = SrgbMonoA8::new(0, 0);
    assert_eq!(Identity.to_display(&px), Srgba8::new(0, 0, 0, 0));
}

#[test]
fn identity_srgb_mono_a8_white_opaque() {
    let px = SrgbMonoA8::new(255, 255);
    assert_eq!(Identity.to_display(&px), Srgba8::new(255, 255, 255, 255));
}

#[test]
fn srgba8_identity_end_to_end() {
    let px = Srgba8::new(0x12, 0x34, 0x56, 0xFF);
    let img = Image::fill(2, 2, px);

    let display = Identity.to_display(&img.pixel_at(0, 0));
    assert_eq!(display, px);
    assert_eq!(display.to_framebuffer_u32(), 0x00123456);
}

#[test]
fn srgb8_identity_end_to_end() {
    let px = Srgb8::new(0xAA, 0xBB, 0xCC);
    let display = Identity.to_display(&px);
    assert_eq!(display, Srgba8::new(0xAA, 0xBB, 0xCC, 255));
    assert_eq!(display.to_framebuffer_u32(), 0x00AABBCC);
}

// ── LinearToDisplay ─────────────────────────────────────────────────────────

#[test]
fn linear_rgb8_black() {
    let px = Rgb8::new(0, 0, 0);
    assert_eq!(LinearToDisplay.to_display(&px), Srgba8::new(0, 0, 0, 255));
}

#[test]
fn linear_rgb8_white() {
    let px = Rgb8::new(255, 255, 255);
    assert_eq!(
        LinearToDisplay.to_display(&px),
        Srgba8::new(255, 255, 255, 255)
    );
}

#[test]
fn linear_mono8_correct_srgb_gray() {
    // Mono8(128) → linear 128/255 ≈ 0.502 → sRGB ≈ 188
    let px = Mono8::new(128);
    let result = LinearToDisplay.to_display(&px);
    assert_eq!(result.r, result.g);
    assert_eq!(result.g, result.b);
    assert_eq!(result.a, 255);
    assert!(result.r >= 187 && result.r <= 189);
}

#[test]
fn linear_rgb8_mid_gray() {
    // srgb_encode(128/255) = 1.055 · 0.502^(1/2.4) − 0.055 ≈ 0.7372 → 188
    let result = LinearToDisplay.to_display(&Rgb8::new(128, 128, 128));
    assert_eq!(result, Srgba8::new(188, 188, 188, 255));
}

#[test]
fn linear_rgba8_alpha_carried_linearly() {
    let result = LinearToDisplay.to_display(&Rgba8::new(128, 0, 255, 128));
    assert_eq!(result, Srgba8::new(188, 0, 255, 128));
}

#[test]
fn linear_bgr8_channel_order() {
    let px = Bgr8::new(0, 0, 255); // b=0, g=0, r=255
    let result = LinearToDisplay.to_display(&px);
    assert_eq!(result.r, 255);
    assert_eq!(result.g, 0);
    assert_eq!(result.b, 0);
}

#[test]
fn linear_bgra8_channel_order_with_alpha() {
    let px = Bgra8::new(0, 0, 255, 128); // b=0, g=0, r=255, a=128
    let result = LinearToDisplay.to_display(&px);
    assert_eq!(result.r, 255);
    assert_eq!(result.g, 0);
    assert_eq!(result.b, 0);
    assert_eq!(result.a, 128);
}

#[test]
fn linear_alpha_kept_for_every_value() {
    for a in 0..=255u8 {
        let out = LinearToDisplay.to_display(&Rgba8::new(0, 0, 0, a));
        assert_eq!(out.a, a);
        assert_eq!((out.r, out.g, out.b), (0, 0, 0));
    }
}

#[test]
fn linear_encoding_is_monotone_per_channel() {
    let mut last = 0u8;
    for v in 0..=255u8 {
        let out = LinearToDisplay.to_display(&Mono8::new(v));
        assert!(out.r >= last);
        last = out.r;
    }
    assert_eq!(last, 255);
}

// ── Framebuffer ─────────────────────────────────────────────────────────────

fn set(img: &mut Image<Srgba8>, x: usize, y: usize, p: Srgba8) {
    img.set_pixel(x, y, p);
}

#[test]
fn framebuffer_from_image_2x2_srgba8() {
    let mut img = Image::fill(2, 2, Srgba8::new(0, 0, 0, 255));
    set(&mut img, 0, 0, Srgba8::new(255, 0, 0, 255));
    set(&mut img, 1, 0, Srgba8::new(0, 255, 0, 255));
    set(&mut img, 0, 1, Srgba8::new(0, 0, 255, 255));
    set(&mut img, 1, 1, Srgba8::new(255, 255, 255, 255));

    let fb = Framebuffer::from_image(&img, Identity);
    assert_eq!(fb.width, 2);
    assert_eq!(fb.height, 2);
    assert_eq!(fb.data.len(), 4);
    assert_eq!(fb.data[0], 0x00FF0000);
    assert_eq!(fb.data[1], 0x0000FF00);
    assert_eq!(fb.data[2], 0x000000FF);
    assert_eq!(fb.data[3], 0x00FFFFFF);
}

#[test]
fn framebuffer_from_image_zero_size() {
    let img = Image::<Srgba8>::fill(0, 0, Srgba8::new(0, 0, 0, 0));
    let fb = Framebuffer::from_image(&img, Identity);
    assert_eq!(fb.width, 0);
    assert_eq!(fb.height, 0);
    assert!(fb.data.is_empty());
}

#[test]
fn framebuffer_from_image_1x1() {
    let img = Image::fill(1, 1, Srgba8::new(0xAA, 0xBB, 0xCC, 0xFF));
    let fb = Framebuffer::from_image(&img, Identity);
    assert_eq!(fb.width, 1);
    assert_eq!(fb.height, 1);
    assert_eq!(fb.data.len(), 1);
    assert_eq!(fb.data[0], 0x00AABBCC);
}

#[test]
fn framebuffer_from_image_with_strategy() {
    let img = Image::fill(2, 1, Mono8::new(0));
    let fb = Framebuffer::from_image(&img, LinearToDisplay);
    assert_eq!(fb.width, 2);
    assert_eq!(fb.height, 1);
    assert_eq!(fb.data.len(), 2);
    assert_eq!(fb.data[0], 0x00000000);
    assert_eq!(fb.data[1], 0x00000000);
}

#[test]
fn framebuffer_from_image_roi() {
    // A 4x4 image, of which the 2x2 region at (1, 1) is read into an image
    // of its own and converted.
    let mut img = Image::fill(4, 4, Srgba8::new(0, 0, 0, 255));
    set(&mut img, 1, 1, Srgba8::new(255, 0, 0, 255));
    set(&mut img, 2, 1, Srgba8::new(0, 255, 0, 255));
    set(&mut img, 1, 2, Srgba8::new(0, 0, 255, 255));
    set(&mut img, 2, 2, Srgba8::new(255, 255, 255, 255));

    let mut region = Vec::new();
    for y in 1..3 {
        for x in 1..3 {
            region.push(img.pixel_at(x, y));
        }
    }
    let roi = Image::from_pixels(2, 2, region).unwrap();
    let fb = Framebuffer::from_image(&roi, Identity);
    assert_eq!(fb.width, 2);
    assert_eq!(fb.height, 2);
    assert_eq!(fb.data[0], 0x00FF0000); // red
    assert_eq!(fb.data[1], 0x0000FF00); // green
    assert_eq!(fb.data[2], 0x000000FF); // blue
    assert_eq!(fb.data[3], 0x00FFFFFF); // white
}

#[test]
fn framebuffer_from_raw_valid() {
    let fb = Framebuffer::from_raw(2, 2, vec![0, 1, 2, 3]);
    assert_eq!(fb.width, 2);
    assert_eq!(fb.height, 2);
    assert_eq!(fb.data, vec![0, 1, 2, 3]);
}

#[test]
fn framebuffer_from_raw_empty() {
    let fb = Framebuffer::from_raw(0, 0, vec![]);
    assert_eq!(fb.width, 0);
    assert_eq!(fb.height, 0);
    assert!(fb.data.is_empty());
}

// ── Image ───────────────────────────────────────────────────────────────────

#[test]
fn image_from_pixels_checks_size() {
    assert!(Image::from_pixels(2, 2, vec![1u8, 2, 3]).is_none());
    assert!(Image::from_pixels(usize::MAX, 2, vec![1u8]).is_none());
    let img = Image::from_pixels(2, 2, vec![1u8, 2, 3, 4]).unwrap();
    assert_eq!(img.pixel_at(1, 0), 2);
    assert_eq!(img.pixel_at(0, 1), 3);
    assert_eq!(img.get(2, 0), None);
    assert_eq!(img.get(1, 1), Some(4));
}

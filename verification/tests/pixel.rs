//! Framebuffer packing and texture format descriptors.

use fovea_display::{DisplayPixel, Srgba8, TextureFormat};

const ALL_FORMATS: [TextureFormat; 13] = [
    TextureFormat::R8Unorm,
    TextureFormat::R8Srgb,
    TextureFormat::Rg8Unorm,
    TextureFormat::Rgba8Unorm,
    TextureFormat::Rgba8Srgb,
    TextureFormat::Bgra8Unorm,
    TextureFormat::Bgra8Srgb,
    TextureFormat::R16Unorm,
    TextureFormat::Rg16Unorm,
    TextureFormat::Rgba16Unorm,
    TextureFormat::R32Float,
    TextureFormat::Rg32Float,
    TextureFormat::Rgba32Float,
];

#[test]
fn srgba8_to_framebuffer_red() {
    assert_eq!(Srgba8::new(255, 0, 0, 255).to_framebuffer_u32(), 0x00FF0000);
}

#[test]
fn srgba8_to_framebuffer_green() {
    assert_eq!(Srgba8::new(0, 255, 0, 128).to_framebuffer_u32(), 0x0000FF00);
}

#[test]
fn srgba8_to_framebuffer_blue() {
    assert_eq!(Srgba8::new(0, 0, 255, 0).to_framebuffer_u32(), 0x000000FF);
}

#[test]
fn srgba8_to_framebuffer_black() {
    assert_eq!(Srgba8::new(0, 0, 0, 0).to_framebuffer_u32(), 0x00000000);
}

#[test]
fn srgba8_to_framebuffer_white() {
    assert_eq!(
        Srgba8::new(255, 255, 255, 255).to_framebuffer_u32(),
        0x00FFFFFF
    );
}

#[test]
fn srgba8_to_framebuffer_0x123456() {
    assert_eq!(
        Srgba8::new(18, 52, 86, 200).to_framebuffer_u32(),
        0x00123456
    );
}

#[test]
fn srgba8_alpha_is_discarded() {
    let a = Srgba8::new(100, 150, 200, 0).to_framebuffer_u32();
    let b = Srgba8::new(100, 150, 200, 255).to_framebuffer_u32();
    assert_eq!(a, b);
}

#[test]
fn framebuffer_word_channels_read_back() {
    for (r, g, b) in [(0u8, 0u8, 0u8), (1, 2, 3), (255, 0, 128), (17, 255, 64)] {
        let w = Srgba8::new(r, g, b, 99).to_framebuffer_u32();
        assert_eq!(w >> 24, 0);
        assert_eq!((w >> 16) as u8, r);
        assert_eq!((w >> 8) as u8, g);
        assert_eq!(w as u8, b);
    }
}

#[test]
fn bytes_per_pixel_1byte_formats() {
    assert_eq!(TextureFormat::R8Unorm.bytes_per_pixel(), 1);
    assert_eq!(TextureFormat::R8Srgb.bytes_per_pixel(), 1);
}

#[test]
fn bytes_per_pixel_2byte_formats() {
    assert_eq!(TextureFormat::Rg8Unorm.bytes_per_pixel(), 2);
    assert_eq!(TextureFormat::R16Unorm.bytes_per_pixel(), 2);
}

#[test]
fn bytes_per_pixel_4byte_formats() {
    assert_eq!(TextureFormat::Rgba8Unorm.bytes_per_pixel(), 4);
    assert_eq!(TextureFormat::Rgba8Srgb.bytes_per_pixel(), 4);
    assert_eq!(TextureFormat::Bgra8Unorm.bytes_per_pixel(), 4);
    assert_eq!(TextureFormat::Bgra8Srgb.bytes_per_pixel(), 4);
    assert_eq!(TextureFormat::Rg16Unorm.bytes_per_pixel(), 4);
    assert_eq!(TextureFormat::R32Float.bytes_per_pixel(), 4);
}

#[test]
fn bytes_per_pixel_8byte_formats() {
    assert_eq!(TextureFormat::Rgba16Unorm.bytes_per_pixel(), 8);
    assert_eq!(TextureFormat::Rg32Float.bytes_per_pixel(), 8);
}

#[test]
fn bytes_per_pixel_16byte_formats() {
    assert_eq!(TextureFormat::Rgba32Float.bytes_per_pixel(), 16);
}

#[test]
fn channel_count_1ch() {
    assert_eq!(TextureFormat::R8Unorm.channel_count(), 1);
    assert_eq!(TextureFormat::R8Srgb.channel_count(), 1);
    assert_eq!(TextureFormat::R16Unorm.channel_count(), 1);
    assert_eq!(TextureFormat::R32Float.channel_count(), 1);
}

#[test]
fn channel_count_2ch() {
    assert_eq!(TextureFormat::Rg8Unorm.channel_count(), 2);
    assert_eq!(TextureFormat::Rg16Unorm.channel_count(), 2);
    assert_eq!(TextureFormat::Rg32Float.channel_count(), 2);
}

#[test]
fn channel_count_4ch() {
    assert_eq!(TextureFormat::Rgba8Unorm.channel_count(), 4);
    assert_eq!(TextureFormat::Rgba8Srgb.channel_count(), 4);
    assert_eq!(TextureFormat::Bgra8Unorm.channel_count(), 4);
    assert_eq!(TextureFormat::Bgra8Srgb.channel_count(), 4);
    assert_eq!(TextureFormat::Rgba16Unorm.channel_count(), 4);
    assert_eq!(TextureFormat::Rgba32Float.channel_count(), 4);
}

#[test]
fn bytes_per_pixel_equals_channels_times_component_size() {
    for fmt in &ALL_FORMATS {
        let bpp = fmt.bytes_per_pixel();
        let ch = fmt.channel_count();
        assert!(
            bpp % ch == 0,
            "{fmt:?}: bytes_per_pixel ({bpp}) not divisible by channel_count ({ch})"
        );
    }
}

#[test]
fn bytes_per_pixel_is_a_channel_size_multiple() {
    for fmt in &ALL_FORMATS {
        let component = fmt.bytes_per_pixel() / fmt.channel_count();
        assert!(component == 1 || component == 2 || component == 4, "{fmt:?}");
        assert!([1, 2, 4].contains(&fmt.channel_count()), "{fmt:?}");
    }
}

#[test]
fn bytes_per_row_is_width_times_bytes_per_pixel() {
    assert_eq!(TextureFormat::Rgba8Srgb.bytes_per_row(16), 16 * 4);
    assert_eq!(TextureFormat::R8Unorm.bytes_per_row(10), 10);
    assert_eq!(TextureFormat::R16Unorm.bytes_per_row(10), 20);
    assert_eq!(TextureFormat::Rgba32Float.bytes_per_row(3), 48);
    assert_eq!(TextureFormat::Rg8Unorm.bytes_per_row(0), 0);
}

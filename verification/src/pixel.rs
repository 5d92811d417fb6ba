//! Display-side pixel types, the framebuffer packing, and GPU texture
//! format descriptors.

use vstd::prelude::*;

use crate::sealed::Sealed;

verus! {

// ── Display-side pixel types ────────────────────────────────────────────────

/// An sRGB-encoded pixel with straight alpha: the output of every display
/// strategy.
#[derive(Clone, Copy, Debug, PartialEq, Eq, Hash, Structural)]
pub struct Srgba8 {
    pub r: u8,
    pub g: u8,
    pub b: u8,
    pub a: u8,
}

impl Srgba8 {
    pub fn new(r: u8, g: u8, b: u8, a: u8) -> (p: Srgba8)
        ensures
            p == (Srgba8 { r, g, b, a }),
    {
        Srgba8 { r, g, b, a }
    }
}

/// An sRGB-encoded pixel without alpha.
#[derive(Clone, Copy, Debug, PartialEq, Eq, Hash, Structural)]
pub struct Srgb8 {
    pub r: u8,
    pub g: u8,
    pub b: u8,
}

impl Srgb8 {
    pub fn new(r: u8, g: u8, b: u8) -> (p: Srgb8)
        ensures
            p == (Srgb8 { r, g, b }),
    {
        Srgb8 { r, g, b }
    }
}

/// An sRGB-encoded gray value.
#[derive(Clone, Copy, Debug, PartialEq, Eq, Hash, Structural)]
pub struct SrgbMono8 {
    pub v: u8,
}

impl SrgbMono8 {
    pub fn new(v: u8) -> (p: SrgbMono8)
        ensures
            p == (SrgbMono8 { v }),
    {
        SrgbMono8 { v }
    }
}

/// An sRGB-encoded gray value with straight alpha.
#[derive(Clone, Copy, Debug, PartialEq, Eq, Hash, Structural)]
pub struct SrgbMonoA8 {
    pub v: u8,
    pub a: u8,
}

impl SrgbMonoA8 {
    pub fn new(v: u8, a: u8) -> (p: SrgbMonoA8)
        ensures
            p == (SrgbMonoA8 { v, a }),
    {
        SrgbMonoA8 { v, a }
    }
}

/// A linear-light RGB pixel.
#[derive(Clone, Copy, Debug, PartialEq, Eq, Hash, Structural)]
pub struct Rgb8 {
    pub r: u8,
    pub g: u8,
    pub b: u8,
}

impl Rgb8 {
    pub fn new(r: u8, g: u8, b: u8) -> (p: Rgb8)
        ensures
            p == (Rgb8 { r, g, b }),
    {
        Rgb8 { r, g, b }
    }
}

/// A linear-light RGB pixel with alpha.
#[derive(Clone, Copy, Debug, PartialEq, Eq, Hash, Structural)]
pub struct Rgba8 {
    pub r: u8,
    pub g: u8,
    pub b: u8,
    pub a: u8,
}

impl Rgba8 {
    pub fn new(r: u8, g: u8, b: u8, a: u8) -> (p: Rgba8)
        ensures
            p == (Rgba8 { r, g, b, a }),
    {
        Rgba8 { r, g, b, a }
    }
}

/// A linear-light pixel stored in blue, green, red order.
#[derive(Clone, Copy, Debug, PartialEq, Eq, Hash, Structural)]
pub struct Bgr8 {
    pub b: u8,
    pub g: u8,
    pub r: u8,
}

impl Bgr8 {
    pub fn new(b: u8, g: u8, r: u8) -> (p: Bgr8)
        ensures
            p == (Bgr8 { b, g, r }),
    {
        Bgr8 { b, g, r }
    }
}

/// A linear-light pixel stored in blue, green, red, alpha order.
#[derive(Clone, Copy, Debug, PartialEq, Eq, Hash, Structural)]
pub struct Bgra8 {
    pub b: u8,
    pub g: u8,
    pub r: u8,
    pub a: u8,
}

impl Bgra8 {
    pub fn new(b: u8, g: u8, r: u8, a: u8) -> (p: Bgra8)
        ensures
            p == (Bgra8 { b, g, r, a }),
    {
        Bgra8 { b, g, r, a }
    }
}

/// A linear-light gray value.
#[derive(Clone, Copy, Debug, PartialEq, Eq, Hash, Structural)]
pub struct Mono8 {
    pub v: u8,
}

impl Mono8 {
    pub fn new(v: u8) -> (p: Mono8)
        ensures
            p == (Mono8 { v }),
    {
        Mono8 { v }
    }

    pub fn value(&self) -> (v: u8)
        ensures
            v == self.v,
    {
        self.v
    }
}

// ── DisplayPixel ────────────────────────────────────────────────────────────

/// The framebuffer word `0x00RRGGBB` of an RGB triple.
pub open spec fn framebuffer_word(r: u8, g: u8, b: u8) -> u32 {
    (r as int * 0x1_0000 + g as int * 0x100 + b as int) as u32
}

/// A pixel that can be written directly to a `0x00RRGGBB` framebuffer.
///
/// The trait is sealed: only [`Srgba8`] implements it. Alpha is discarded,
/// not composited.
pub trait DisplayPixel: Sealed {
    /// The framebuffer word this pixel packs to.
    spec fn framebuffer_value(&self) -> u32;

    /// Convert to the `0x00RRGGBB` framebuffer format; the high byte is
    /// always zero.
    fn to_framebuffer_u32(&self) -> (word: u32)
        ensures
            word == self.framebuffer_value(),
            word < 0x0100_0000,
    ;
}

impl Sealed for Srgba8 {}

impl DisplayPixel for Srgba8 {
    open spec fn framebuffer_value(&self) -> u32 {
        framebuffer_word(self.r, self.g, self.b)
    }

    fn to_framebuffer_u32(&self) -> (word: u32) {
        let r = self.r as u32;
        let g = self.g as u32;
        let b = self.b as u32;
        assert((r << 16u32) | (g << 8u32) | b == r * 0x1_0000 + g * 0x100 + b) by (bit_vector)
            requires
                r < 256,
                g < 256,
                b < 256,
        ;
        (r << 16u32) | (g << 8u32) | b
    }
}

/// Law: the framebuffer word does not depend on alpha.
pub proof fn lemma_framebuffer_ignores_alpha(p: Srgba8, q: Srgba8)
    requires
        p.r == q.r,
        p.g == q.g,
        p.b == q.b,
    ensures
        p.framebuffer_value() == q.framebuffer_value(),
{
}

/// Law: the framebuffer word determines the colour channels: each channel
/// is read back from its byte of the word.
pub proof fn lemma_framebuffer_channels(p: Srgba8)
    ensures
        p.framebuffer_value() / 0x1_0000 == p.r,
        (p.framebuffer_value() / 0x100) % 0x100 == p.g,
        p.framebuffer_value() % 0x100 == p.b,
        p.framebuffer_value() < 0x0100_0000,
{
}

/// Law: two pixels give the same framebuffer word exactly when their colour
/// channels agree.
pub proof fn lemma_framebuffer_injective(p: Srgba8, q: Srgba8)
    ensures
        (p.framebuffer_value() == q.framebuffer_value()) <==> (p.r == q.r && p.g == q.g && p.b
            == q.b),
{
    lemma_framebuffer_channels(p);
    lemma_framebuffer_channels(q);
}

// ── TextureFormat ───────────────────────────────────────────────────────────

/// GPU texture format descriptors. There are no 3-channel formats: GPU APIs
/// generally do not support them.
#[derive(Clone, Copy, Debug, PartialEq, Eq, Hash, Structural)]
pub enum TextureFormat {
    R8Unorm,
    R8Srgb,
    Rg8Unorm,
    Rgba8Unorm,
    Rgba8Srgb,
    Bgra8Unorm,
    Bgra8Srgb,
    R16Unorm,
    Rg16Unorm,
    Rgba16Unorm,
    R32Float,
    Rg32Float,
    Rgba32Float,
}

impl TextureFormat {
    /// Number of channels of the format.
    pub open spec fn spec_channel_count(self) -> nat {
        match self {
            TextureFormat::R8Unorm | TextureFormat::R8Srgb | TextureFormat::R16Unorm
            | TextureFormat::R32Float => 1,
            TextureFormat::Rg8Unorm | TextureFormat::Rg16Unorm | TextureFormat::Rg32Float => 2,
            _ => 4,
        }
    }

    /// Bytes per channel of the format.
    pub open spec fn spec_component_size(self) -> nat {
        match self {
            TextureFormat::R8Unorm | TextureFormat::R8Srgb | TextureFormat::Rg8Unorm
            | TextureFormat::Rgba8Unorm | TextureFormat::Rgba8Srgb | TextureFormat::Bgra8Unorm
            | TextureFormat::Bgra8Srgb => 1,
            TextureFormat::R16Unorm | TextureFormat::Rg16Unorm | TextureFormat::Rgba16Unorm => 2,
            _ => 4,
        }
    }

    /// Total bytes per pixel of the format.
    pub open spec fn spec_bytes_per_pixel(self) -> nat {
        match self {
            TextureFormat::R8Unorm | TextureFormat::R8Srgb => 1,
            TextureFormat::Rg8Unorm | TextureFormat::R16Unorm => 2,
            TextureFormat::Rgba8Unorm | TextureFormat::Rgba8Srgb | TextureFormat::Bgra8Unorm
            | TextureFormat::Bgra8Srgb | TextureFormat::Rg16Unorm | TextureFormat::R32Float => 4,
            TextureFormat::Rgba16Unorm | TextureFormat::Rg32Float => 8,
            TextureFormat::Rgba32Float => 16,
        }
    }

    /// Returns the total number of bytes per pixel for this format.
    pub fn bytes_per_pixel(&self) -> (n: usize)
        ensures
            n == self.spec_bytes_per_pixel(),
    {
        match self {
            TextureFormat::R8Unorm | TextureFormat::R8Srgb => 1,
            TextureFormat::Rg8Unorm => 2,
            TextureFormat::Rgba8Unorm
            | TextureFormat::Rgba8Srgb
            | TextureFormat::Bgra8Unorm
            | TextureFormat::Bgra8Srgb => 4,
            TextureFormat::R16Unorm => 2,
            TextureFormat::Rg16Unorm => 4,
            TextureFormat::Rgba16Unorm => 8,
            TextureFormat::R32Float => 4,
            TextureFormat::Rg32Float => 8,
            TextureFormat::Rgba32Float => 16,
        }
    }

    /// Returns the number of channels in this format.
    pub fn channel_count(&self) -> (n: usize)
        ensures
            n == self.spec_channel_count(),
    {
        match self {
            TextureFormat::R8Unorm
            | TextureFormat::R8Srgb
            | TextureFormat::R16Unorm
            | TextureFormat::R32Float => 1,
            TextureFormat::Rg8Unorm | TextureFormat::Rg16Unorm | TextureFormat::Rg32Float => 2,
            TextureFormat::Rgba8Unorm
            | TextureFormat::Rgba8Srgb
            | TextureFormat::Bgra8Unorm
            | TextureFormat::Bgra8Srgb
            | TextureFormat::Rgba16Unorm
            | TextureFormat::Rgba32Float => 4,
        }
    }
}

impl TextureFormat {
    /// Logical bytes of a row of `width` pixels of this format, without the
    /// alignment padding a GPU API may add; as the GPU APIs take it, the
    /// count is a `u32` (its low 32 bits).
    pub fn bytes_per_row(&self, width: usize) -> (n: u32)
        requires
            width * self.spec_bytes_per_pixel() <= usize::MAX,
        ensures
            n == (width * self.spec_bytes_per_pixel()) as u32,
    {
        let bpp = self.bytes_per_pixel();
        (width * bpp) as u32
    }
}

/// Law: for every format, the bytes per pixel are the channel count times
/// the size of one channel, so they are a multiple of the channel count.
pub proof fn lemma_bytes_per_pixel_is_channels_times_component(f: TextureFormat)
    ensures
        f.spec_bytes_per_pixel() == f.spec_channel_count() * f.spec_component_size(),
        f.spec_bytes_per_pixel() % f.spec_channel_count() == 0,
        f.spec_channel_count() == 1 || f.spec_channel_count() == 2 || f.spec_channel_count() == 4,
{
}

} // verus!

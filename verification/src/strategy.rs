//! Display strategies: named conversions from pixel types to [`Srgba8`].
//!
//! Every pixel type needs an explicit strategy to become displayable; the
//! output is always [`Srgba8`] because displays are sRGB devices.

use vstd::prelude::*;

use fovea::transform::{ConvertPixel, FullRange, SrgbGamma};

use crate::pixel::{Bgr8, Bgra8, Mono8, Rgb8, Rgba8, Srgb8, SrgbMono8, SrgbMonoA8, Srgba8};

verus! {

/// Named conversion from a pixel type to display-ready [`Srgba8`].
///
/// Users may implement it for strategies of their own. A strategy may
/// specify its results: for [`Identity`] `obeys_display_spec` holds and
/// `display_of` says what each pixel becomes. An implementation that keeps
/// the defaults promises nothing about its results beyond its own contract.
pub trait DisplayStrategy<P: Copy> {
    /// Whether the results of this strategy are the ones `display_of`
    /// gives.
    open spec fn obeys_display_spec(&self) -> bool {
        false
    }

    /// The display pixel this strategy gives for `pixel`, where it obeys
    /// the specification.
    open spec fn display_of(&self, pixel: P) -> Srgba8 {
        arbitrary()
    }

    /// Convert a single pixel to display-ready [`Srgba8`].
    fn to_display(&self, pixel: &P) -> (out: Srgba8)
        ensures
            self.obeys_display_spec() ==> out == self.display_of(*pixel),
    ;
}

// ── Identity ────────────────────────────────────────────────────────────────

/// Display sRGB pixels as they are. Only sRGB types have an `Identity`
/// conversion; linear types go through [`LinearToDisplay`].
pub struct Identity;

impl DisplayStrategy<Srgba8> for Identity {
    open spec fn obeys_display_spec(&self) -> bool {
        true
    }

    open spec fn display_of(&self, pixel: Srgba8) -> Srgba8 {
        pixel
    }

    fn to_display(&self, pixel: &Srgba8) -> (out: Srgba8) {
        *pixel
    }
}

impl DisplayStrategy<Srgb8> for Identity {
    open spec fn obeys_display_spec(&self) -> bool {
        true
    }

    open spec fn display_of(&self, pixel: Srgb8) -> Srgba8 {
        Srgba8 { r: pixel.r, g: pixel.g, b: pixel.b, a: 255 }
    }

    fn to_display(&self, pixel: &Srgb8) -> (out: Srgba8) {
        Srgba8::new(pixel.r, pixel.g, pixel.b, 255)
    }
}

impl DisplayStrategy<SrgbMono8> for Identity {
    open spec fn obeys_display_spec(&self) -> bool {
        true
    }

    open spec fn display_of(&self, pixel: SrgbMono8) -> Srgba8 {
        Srgba8 { r: pixel.v, g: pixel.v, b: pixel.v, a: 255 }
    }

    fn to_display(&self, pixel: &SrgbMono8) -> (out: Srgba8) {
        let v = pixel.v;
        Srgba8::new(v, v, v, 255)
    }
}

impl DisplayStrategy<SrgbMonoA8> for Identity {
    open spec fn obeys_display_spec(&self) -> bool {
        true
    }

    open spec fn display_of(&self, pixel: SrgbMonoA8) -> Srgba8 {
        Srgba8 { r: pixel.v, g: pixel.v, b: pixel.v, a: pixel.a }
    }

    fn to_display(&self, pixel: &SrgbMonoA8) -> (out: Srgba8) {
        let v = pixel.v;
        Srgba8::new(v, v, v, pixel.a)
    }
}

// ── LinearToDisplay ─────────────────────────────────────────────────────────

/// Calls `fovea`'s `SrgbGamma` conversion `RgbF32 -> Srgb8` on the triple
/// scaled to `[0, 1]` by `FullRange` (`v / 255`). The encoding uses
/// `f32::powf`, whose precision std leaves to the platform, so the contract
/// does not name the result. It claims, channel by channel (the encoder
/// works on each channel on its own), that 0 and 255 are fixed points (it
/// clamps to `[0, 1]` and maps 0 to 0 and 1 to 255) and that every value in
/// between comes out strictly brighter: the sRGB curve lies above the
/// identity on `(0, 1)`, and for each byte from 1 to 254 the encoded value
/// before the truncating cast exceeds the next byte up by at least 0.05,
/// thousands of `f32` ulps, so no precision of `powf` changes that.
#[verifier::external_body]
fn encode_linear_rgb(r: u8, g: u8, b: u8) -> (out: (u8, u8, u8))
    ensures
        r == 0 ==> out.0 == 0,
        g == 0 ==> out.1 == 0,
        b == 0 ==> out.2 == 0,
        r == 255 ==> out.0 == 255,
        g == 255 ==> out.1 == 255,
        b == 255 ==> out.2 == 255,
        0 < r < 255 ==> r < out.0,
        0 < g < 255 ==> g < out.1,
        0 < b < 255 ==> b < out.2,
{
    let linear: fovea::pixel::RgbF32 = FullRange.convert(&fovea::pixel::Rgb8::new(r, g, b));
    let out: fovea::pixel::Srgb8 = SrgbGamma.convert(&linear);
    (out.r.0, out.g.0, out.b.0)
}

/// Calls `fovea`'s `SrgbGamma` conversion `RgbaF32 -> Srgba8` on the
/// quadruple scaled to `[0, 1]` by `FullRange`. As for the RGB encoding, the
/// colour bytes are not named; the contract claims that alpha comes back as
/// it went in (it is scaled to `[0, 1]` and back without gamma), and that a
/// colour channel at 0 or 255 keeps that value while one in between comes
/// out strictly brighter.
#[verifier::external_body]
fn encode_linear_rgba(r: u8, g: u8, b: u8, a: u8) -> (out: (u8, u8, u8, u8))
    ensures
        out.3 == a,
        r == 0 ==> out.0 == 0,
        g == 0 ==> out.1 == 0,
        b == 0 ==> out.2 == 0,
        r == 255 ==> out.0 == 255,
        g == 255 ==> out.1 == 255,
        b == 255 ==> out.2 == 255,
        0 < r < 255 ==> r < out.0,
        0 < g < 255 ==> g < out.1,
        0 < b < 255 ==> b < out.2,
{
    let linear: fovea::pixel::RgbaF32 = FullRange.convert(&fovea::pixel::Rgba8::new(r, g, b, a));
    let out: fovea::pixel::Srgba8 = SrgbGamma.convert(&linear);
    (out.r.0, out.g.0, out.b.0, out.a.0)
}

/// Calls `fovea`'s `SrgbGamma` conversion `MonoF32 -> SrgbMono8` on the byte
/// scaled to `[0, 1]` by `FullRange`. As for the RGB encoding, the result is
/// not named; the contract claims that 0 and 255 are fixed points and that
/// every value in between comes out strictly brighter.
#[verifier::external_body]
fn encode_linear_gray(v: u8) -> (out: u8)
    ensures
        v == 0 ==> out == 0,
        v == 255 ==> out == 255,
        0 < v < 255 ==> v < out,
{
    let linear: fovea::pixel::MonoF32 = FullRange.convert(&fovea::pixel::Mono8::new(v));
    let out: fovea::pixel::SrgbMono8 = SrgbGamma.convert(&linear);
    out.0.0
}

/// Apply sRGB gamma encoding to linear-light pixels for display: a pixel is
/// encoded by `fovea`'s sRGB transfer function, then shown as the sRGB pixel
/// it encodes to, as [`Identity`] shows it. Without the encoding, linear
/// images look washed out on sRGB monitors.
///
/// The encoding computes with `f32::powf`, whose precision std leaves to the
/// platform, so this strategy does not obey a display specification: its
/// contracts state what holds of every outcome: a channel at 0 or 255 keeps
/// that value in its own place, a channel in between comes out strictly
/// brighter in its own place, alpha is kept, gray stays gray.
pub struct LinearToDisplay;

impl DisplayStrategy<Rgb8> for LinearToDisplay {
    /// Opaque; a channel at 0 or 255 keeps that value and one in between
    /// comes out strictly brighter, each in its own place.
    fn to_display(&self, pixel: &Rgb8) -> (out: Srgba8)
        ensures
            out.a == 255,
            pixel.r == 0 ==> out.r == 0,
            pixel.g == 0 ==> out.g == 0,
            pixel.b == 0 ==> out.b == 0,
            pixel.r == 255 ==> out.r == 255,
            pixel.g == 255 ==> out.g == 255,
            pixel.b == 255 ==> out.b == 255,
            0 < pixel.r < 255 ==> pixel.r < out.r,
            0 < pixel.g < 255 ==> pixel.g < out.g,
            0 < pixel.b < 255 ==> pixel.b < out.b,
    {
        let (r, g, b) = encode_linear_rgb(pixel.r, pixel.g, pixel.b);
        Identity.to_display(&Srgb8::new(r, g, b))
    }
}

impl DisplayStrategy<Rgba8> for LinearToDisplay {
    /// Alpha is kept unchanged; a colour channel at 0 or 255 keeps that value
    /// and one in between comes out strictly brighter, each in its own place.
    fn to_display(&self, pixel: &Rgba8) -> (out: Srgba8)
        ensures
            out.a == pixel.a,
            pixel.r == 0 ==> out.r == 0,
            pixel.g == 0 ==> out.g == 0,
            pixel.b == 0 ==> out.b == 0,
            pixel.r == 255 ==> out.r == 255,
            pixel.g == 255 ==> out.g == 255,
            pixel.b == 255 ==> out.b == 255,
            0 < pixel.r < 255 ==> pixel.r < out.r,
            0 < pixel.g < 255 ==> pixel.g < out.g,
            0 < pixel.b < 255 ==> pixel.b < out.b,
    {
        let (r, g, b, a) = encode_linear_rgba(pixel.r, pixel.g, pixel.b, pixel.a);
        Identity.to_display(&Srgba8::new(r, g, b, a))
    }
}

impl DisplayStrategy<Bgr8> for LinearToDisplay {
    /// Opaque; a channel at 0 or 255 keeps that value and one in between
    /// comes out strictly brighter, each in its own place.
    fn to_display(&self, pixel: &Bgr8) -> (out: Srgba8)
        ensures
            out.a == 255,
            pixel.r == 0 ==> out.r == 0,
            pixel.g == 0 ==> out.g == 0,
            pixel.b == 0 ==> out.b == 0,
            pixel.r == 255 ==> out.r == 255,
            pixel.g == 255 ==> out.g == 255,
            pixel.b == 255 ==> out.b == 255,
            0 < pixel.r < 255 ==> pixel.r < out.r,
            0 < pixel.g < 255 ==> pixel.g < out.g,
            0 < pixel.b < 255 ==> pixel.b < out.b,
    {
        let (r, g, b) = encode_linear_rgb(pixel.r, pixel.g, pixel.b);
        Identity.to_display(&Srgb8::new(r, g, b))
    }
}

impl DisplayStrategy<Bgra8> for LinearToDisplay {
    /// Alpha is kept unchanged; a colour channel at 0 or 255 keeps that value
    /// and one in between comes out strictly brighter, each in its own place.
    fn to_display(&self, pixel: &Bgra8) -> (out: Srgba8)
        ensures
            out.a == pixel.a,
            pixel.r == 0 ==> out.r == 0,
            pixel.g == 0 ==> out.g == 0,
            pixel.b == 0 ==> out.b == 0,
            pixel.r == 255 ==> out.r == 255,
            pixel.g == 255 ==> out.g == 255,
            pixel.b == 255 ==> out.b == 255,
            0 < pixel.r < 255 ==> pixel.r < out.r,
            0 < pixel.g < 255 ==> pixel.g < out.g,
            0 < pixel.b < 255 ==> pixel.b < out.b,
    {
        let (r, g, b, a) = encode_linear_rgba(pixel.r, pixel.g, pixel.b, pixel.a);
        Identity.to_display(&Srgba8::new(r, g, b, a))
    }
}

impl DisplayStrategy<Mono8> for LinearToDisplay {
    /// The result is gray; black stays black, white stays white, and any gray
    /// in between comes out strictly brighter.
    fn to_display(&self, pixel: &Mono8) -> (out: Srgba8)
        ensures
            out.r == out.g && out.g == out.b && out.a == 255,
            pixel.v == 0 ==> out == (Srgba8 { r: 0, g: 0, b: 0, a: 255 }),
            pixel.v == 255 ==> out == (Srgba8 { r: 255, g: 255, b: 255, a: 255 }),
            0 < pixel.v < 255 ==> pixel.v < out.r,
    {
        let v = encode_linear_gray(pixel.value());
        Identity.to_display(&SrgbMono8::new(v))
    }
}

} // verus!

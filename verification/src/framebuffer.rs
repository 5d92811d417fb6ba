//! `0x00RRGGBB` framebuffers: building one from an image through a display
//! strategy, and blitting one into a window buffer of any size.

use vstd::prelude::*;

use crate::image::Image;
use crate::pixel::{DisplayPixel, Srgba8};
use crate::strategy::DisplayStrategy;

verus! {

/// A `width × height` buffer of `u32` pixels in `0x00RRGGBB` format.
pub struct Framebuffer {
    pub width: u32,
    pub height: u32,
    pub data: Vec<u32>,
}

/// `word` is the framebuffer packing of a display pixel that `strategy` may
/// give for `pixel`.
pub open spec fn packs_some_result<P: Copy, S: DisplayStrategy<P>>(strategy: S, pixel: P, word: u32) -> bool {
    exists|d: Srgba8|
        call_ensures(S::to_display, (&strategy, &pixel), d) && #[trigger] d.framebuffer_value()
            == word
}

impl Framebuffer {
    /// The buffer holds exactly `width * height` words.
    pub open spec fn wf(&self) -> bool {
        self.data@.len() == self.width * self.height
    }

    /// A framebuffer from pre-built data, which must hold exactly
    /// `width * height` words.
    pub fn from_raw(width: u32, height: u32, data: Vec<u32>) -> (fb: Framebuffer)
        requires
            data@.len() == width * height,
        ensures
            fb.wf(),
            fb.width == width,
            fb.height == height,
            fb.data@ == data@,
    {
        Framebuffer { width, height, data }
    }

    /// Convert an image with a display strategy: each pixel, row by row,
    /// goes through the strategy and is packed into `0x00RRGGBB`. For every
    /// strategy, each word is the packing of a display pixel that the
    /// strategy's `to_display` may give for its pixel, so its high byte is
    /// zero; for a strategy that specifies its results, each word is the
    /// packing of what the specification gives for its pixel.
    pub fn from_image<P: Copy, S: DisplayStrategy<P>>(image: &Image<P>, strategy: S) -> (fb:
        Framebuffer)
        requires
            image.wf(),
        ensures
            fb.width == image.spec_width() as u32,
            fb.height == image.spec_height() as u32,
            fb.data@.len() == image.spec_pixels().len(),
            forall|i: int| 0 <= i < fb.data@.len() ==> #[trigger] fb.data@[i] < 0x0100_0000,
            forall|i: int|
                0 <= i < fb.data@.len() ==> #[trigger] packs_some_result(
                    strategy,
                    image.spec_pixels()[i],
                    fb.data@[i],
                ),
            strategy.obeys_display_spec() ==> forall|i: int|
                #![trigger fb.data@[i]]
                0 <= i < fb.data@.len() ==> fb.data@[i] == strategy.display_of(
                    image.spec_pixels()[i],
                ).framebuffer_value(),
    {
        let pixels = image.as_slice();
        let n = pixels.len();
        let mut data: Vec<u32> = Vec::new();
        let mut i: usize = 0;
        while i < n
            invariant
                n == pixels@.len(),
                pixels@ == image.spec_pixels(),
                0 <= i <= n,
                data@.len() == i,
                forall|j: int| 0 <= j < i ==> #[trigger] data@[j] < 0x0100_0000,
                forall|j: int|
                    0 <= j < i ==> #[trigger] packs_some_result(strategy, pixels@[j], data@[j]),
                strategy.obeys_display_spec() ==> forall|j: int|
                    #![trigger data@[j]]
                    0 <= j < i ==> data@[j] == strategy.display_of(pixels@[j]).framebuffer_value(),
            decreases n - i,
        {
            let convert = S::to_display;
            let display = convert(&strategy, &pixels[i]);
            let ghost before = data@;
            data.push(display.to_framebuffer_u32());
            proof {
                assert(packs_some_result(strategy, pixels@[i as int], data@[i as int]));
                assert forall|j: int| 0 <= j < i + 1 implies #[trigger] packs_some_result(
                    strategy,
                    pixels@[j],
                    data@[j],
                ) by {
                    if j < i {
                        assert(data@[j] == before[j]);
                    }
                }
            }
            i = i + 1;
        }
        Framebuffer { width: image.width() as u32, height: image.height() as u32, data }
    }
}

/// Row of the source that destination row `d` samples when `dst` rows cover
/// `src` rows (nearest neighbour).
pub open spec fn nearest_source(d: int, src: int, dst: int) -> int {
    d * src / dst
}

/// The word that nearest-neighbour scaling of `src` to `dst_w × dst_h` puts
/// at destination column `dx`, row `dy`.
pub open spec fn scaled_word(src: Framebuffer, dst_w: int, dst_h: int, dx: int, dy: int) -> u32 {
    src.data@[nearest_source(dy, src.height as int, dst_h) * src.width + nearest_source(
        dx,
        src.width as int,
        dst_w,
    )]
}

/// Nearest-neighbour sampling stays inside the source.
pub proof fn lemma_nearest_source_in_range(d: int, src: int, dst: int)
    requires
        0 <= d < dst,
        0 < src,
    ensures
        0 <= nearest_source(d, src, dst) < src,
{
    assert(0 <= d * src) by (nonlinear_arith)
        requires
            0 <= d,
            0 < src,
    ;
    assert(d * src < dst * src) by (nonlinear_arith)
        requires
            d < dst,
            0 < src,
    ;
    assert(d * src / dst < src) by (nonlinear_arith)
        requires
            d * src < dst * src,
            0 < dst,
            0 <= d * src,
    ;
    assert(0 <= d * src / dst) by (nonlinear_arith)
        requires
            0 <= d * src,
            0 < dst,
    ;
}

/// Law: scaling to the source's own size samples every pixel from itself.
pub proof fn lemma_nearest_source_same_size(d: int, n: int)
    requires
        0 <= d < n,
    ensures
        nearest_source(d, n, n) == d,
{
    assert(d * n / n == d) by (nonlinear_arith)
        requires
            0 <= d < n,
    ;
}

/// Law: scaling up by a whole factor `k` repeats every source pixel over a
/// `k × k` block.
pub proof fn lemma_integer_upscale_repeats(src: Framebuffer, k: int, dx: int, dy: int)
    requires
        k > 0,
        src.width > 0,
        src.height > 0,
        0 <= dx,
        0 <= dy,
    ensures
        scaled_word(src, k * src.width, k * src.height, dx, dy) == src.data@[(dy / k) * src.width
            + dx / k],
{
    lemma_nearest_source_multiple(dx, src.width as int, k);
    lemma_nearest_source_multiple(dy, src.height as int, k);
}

/// Sampling a source of `n` from a destination `k` times larger takes every
/// `k`-th position.
proof fn lemma_nearest_source_multiple(d: int, n: int, k: int)
    requires
        n > 0,
        k > 0,
        d >= 0,
    ensures
        nearest_source(d, n, k * n) == d / k,
{
    assert(d * n / (k * n) == d / k) by (nonlinear_arith)
        requires
            n > 0,
            k > 0,
            d >= 0,
    ;
}

/// A pixel of an earlier row comes before the start of row `row`.
proof fn lemma_earlier_row_before(width: int, x: int, y: int, row: int)
    requires
        0 <= x < width,
        0 <= y < row,
    ensures
        y * width + x < row * width,
{
    assert(y * width + x < row * width) by (nonlinear_arith)
        requires
            0 <= x < width,
            0 <= y < row,
    ;
}

/// Nearest-neighbour scale from a framebuffer into a destination buffer of
/// `dst_w × dst_h` words, row by row. An empty source fills the whole
/// destination with black.
pub fn scale_blit(src: &Framebuffer, dst: &mut [u32], dst_w: u32, dst_h: u32)
    requires
        src.wf(),
        src.width == 0 || src.height == 0 || dst_w * dst_h <= old(dst)@.len(),
    ensures
        final(dst)@.len() == old(dst)@.len(),
        src.width == 0 || src.height == 0 ==> forall|i: int|
            0 <= i < final(dst)@.len() ==> #[trigger] final(dst)@[i] == 0,
        src.width > 0 && src.height > 0 ==> {
            &&& forall|dx: int, dy: int|
                0 <= dx < dst_w && 0 <= dy < dst_h ==> #[trigger] final(dst)@[dy * dst_w + dx]
                    == scaled_word(*src, dst_w as int, dst_h as int, dx, dy)
            &&& forall|i: int|
                dst_w * dst_h <= i < final(dst)@.len() ==> #[trigger] final(dst)@[i] == old(
                    dst,
                )@[i]
        },
{
    let n = dst.len();
    if src.width == 0 || src.height == 0 {
        let mut i: usize = 0;
        while i < n
            invariant
                n == dst@.len(),
                0 <= i <= n,
                forall|j: int| 0 <= j < i ==> #[trigger] dst@[j] == 0,
            decreases n - i,
        {
            dst[i] = 0;
            i = i + 1;
        }
        return;
    }
    let sw = src.width as u64;
    let sh = src.height as u64;
    let dw = dst_w as u64;
    let dh = dst_h as u64;
    let ghost old_dst = dst@;
    let mut dy: u32 = 0;
    while dy < dst_h
        invariant
            src.wf(),
            src.width > 0,
            src.height > 0,
            sw == src.width,
            sh == src.height,
            dw == dst_w,
            dh == dst_h,
            dst_w * dst_h <= n,
            n == dst@.len(),
            0 <= dy <= dst_h,
            forall|x: int, y: int|
                0 <= x < dst_w && 0 <= y < dy ==> #[trigger] dst@[y * dst_w + x] == scaled_word(
                    *src,
                    dst_w as int,
                    dst_h as int,
                    x,
                    y,
                ),
            forall|i: int| dy * dst_w <= i < n ==> #[trigger] dst@[i] == old_dst[i],
        decreases dst_h - dy,
    {
        proof {
            lemma_nearest_source_in_range(dy as int, sh as int, dh as int);
            crate::image::lemma_row_end(dw as int, dh as int, dy as int);
            assert(dy as u64 * sh <= u32::MAX as u64 * u32::MAX as u64) by (nonlinear_arith)
                requires
                    dy <= u32::MAX,
                    sh <= u32::MAX,
            ;
            assert(dy as u64 * dw <= u32::MAX as u64 * u32::MAX as u64) by (nonlinear_arith)
                requires
                    dy <= u32::MAX,
                    dw <= u32::MAX,
            ;
            assert(src.data@.len() == src.data.len());
        }
        let sy = (dy as u64 * sh / dh) as u32;
        let dst_row_start = (dy as u64 * dw) as usize;
        proof {
            crate::image::lemma_row_end(sw as int, sh as int, sy as int);
            assert(sy as u64 * sw <= u32::MAX as u64 * u32::MAX as u64) by (nonlinear_arith)
                requires
                    sy <= u32::MAX,
                    sw <= u32::MAX,
            ;
        }
        let src_row_start = (sy as u64 * sw) as usize;
        let mut dx: u32 = 0;
        while dx < dst_w
            invariant
                src.wf(),
                src.width > 0,
                sw == src.width,
                sh == src.height,
                dw == dst_w,
                dh == dst_h,
                dst_w * dst_h <= n,
                n == dst@.len(),
                0 <= dy < dst_h,
                0 <= dx <= dst_w,
                sy == nearest_source(dy as int, sh as int, dh as int),
                0 <= sy < sh,
                dst_row_start == dy * dst_w,
                dst_row_start + dst_w <= dst_w * dst_h,
                src_row_start == sy * src.width,
                src_row_start + src.width <= src.data@.len(),
                src.data@.len() == src.data.len(),
                forall|x: int, y: int|
                    0 <= x < dst_w && 0 <= y < dy ==> #[trigger] dst@[y * dst_w + x]
                        == scaled_word(*src, dst_w as int, dst_h as int, x, y),
                forall|x: int|
                    0 <= x < dx ==> #[trigger] dst@[dy * dst_w + x] == scaled_word(
                        *src,
                        dst_w as int,
                        dst_h as int,
                        x,
                        dy as int,
                    ),
                forall|i: int| dy * dst_w + dx <= i < n ==> #[trigger] dst@[i] == old_dst[i],
            decreases dst_w - dx,
        {
            proof {
                lemma_nearest_source_in_range(dx as int, sw as int, dw as int);
                assert(dx as u64 * sw <= u32::MAX as u64 * u32::MAX as u64) by (nonlinear_arith)
                    requires
                        dx <= u32::MAX,
                        sw <= u32::MAX,
                ;
            }
            let sx = (dx as u64 * sw / dw) as usize;
            dst[dst_row_start + dx as usize] = src.data[src_row_start + sx];
            proof {
                assert forall|x: int, y: int|
                    0 <= x < dst_w && 0 <= y < dy implies #[trigger] dst@[y * dst_w + x]
                    == scaled_word(*src, dst_w as int, dst_h as int, x, y) by {
                    lemma_earlier_row_before(dst_w as int, x, y, dy as int);
                }
            }
            dx = dx + 1;
        }
        proof {
            assert forall|x: int, y: int|
                0 <= x < dst_w && 0 <= y < dy + 1 implies #[trigger] dst@[y * dst_w + x]
                == scaled_word(*src, dst_w as int, dst_h as int, x, y) by {
                if y < dy {
                } else {
                    assert(y == dy);
                }
            }
            assert((dy + 1) * dst_w == dy * dst_w + dst_w) by (nonlinear_arith);
        }
        dy = dy + 1;
    }
    proof {
        assert(dst_h * dst_w == dst_w * dst_h) by (nonlinear_arith);
    }
}

/// What a window redraw does with its framebuffer.
#[derive(Clone, Copy, Debug, PartialEq, Eq, Structural)]
pub enum BlitPlan {
    /// The window has no area (e.g. it is minimised): draw nothing.
    Skip,
    /// The window has the framebuffer's size: copy the words as they are.
    Copy,
    /// The sizes differ: scale with nearest-neighbour sampling.
    Scale,
}

/// Decide how a framebuffer is drawn into a `win_w × win_h` window.
pub fn plan_blit(fb: &Framebuffer, win_w: u32, win_h: u32) -> (plan: BlitPlan)
    ensures
        plan == (if win_w == 0 || win_h == 0 {
            BlitPlan::Skip
        } else if win_w == fb.width && win_h == fb.height {
            BlitPlan::Copy
        } else {
            BlitPlan::Scale
        }),
{
    if win_w == 0 || win_h == 0 {
        BlitPlan::Skip
    } else if win_w == fb.width && win_h == fb.height {
        BlitPlan::Copy
    } else {
        BlitPlan::Scale
    }
}

/// Draw a framebuffer into the `win_w × win_h` buffer of a window: nothing
/// when the window has no area (e.g. it is minimised), a straight copy when
/// the sizes match, nearest-neighbour scaling otherwise. Either way each
/// window pixel is the nearest-neighbour sample of the framebuffer.
pub fn blit_framebuffer(fb: &Framebuffer, dst: &mut [u32], win_w: u32, win_h: u32)
    requires
        fb.wf(),
        win_w * win_h <= old(dst)@.len(),
    ensures
        final(dst)@.len() == old(dst)@.len(),
        win_w == 0 || win_h == 0 ==> final(dst)@ == old(dst)@,
        win_w > 0 && win_h > 0 && (fb.width == 0 || fb.height == 0) ==> forall|i: int|
            0 <= i < final(dst)@.len() ==> #[trigger] final(dst)@[i] == 0,
        win_w > 0 && win_h > 0 && fb.width > 0 && fb.height > 0 ==> forall|dx: int, dy: int|
            0 <= dx < win_w && 0 <= dy < win_h ==> #[trigger] final(dst)@[dy * win_w + dx]
                == scaled_word(*fb, win_w as int, win_h as int, dx, dy),
{
    if win_w == 0 || win_h == 0 {
        return;
    }
    if win_w == fb.width && win_h == fb.height {
        let n = fb.data.len();
        let mut i: usize = 0;
        while i < n
            invariant
                fb.wf(),
                n == fb.data@.len(),
                n <= dst@.len(),
                dst@.len() == old(dst)@.len(),
                0 <= i <= n,
                forall|j: int| 0 <= j < i ==> #[trigger] dst@[j] == fb.data@[j],
            decreases n - i,
        {
            dst[i] = fb.data[i];
            i = i + 1;
        }
        proof {
            assert forall|dx: int, dy: int|
                0 <= dx < win_w && 0 <= dy < win_h implies #[trigger] dst@[dy * win_w + dx]
                == scaled_word(*fb, win_w as int, win_h as int, dx, dy) by {
                lemma_nearest_source_same_size(dx, win_w as int);
                lemma_nearest_source_same_size(dy, win_h as int);
                crate::image::lemma_grid_index_bounds(win_w as int, win_h as int, dx, dy);
            }
        }
    } else {
        scale_blit(fb, dst, win_w, win_h);
    }
}

} // verus!

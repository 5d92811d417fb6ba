//! A plain row-major raster: what the display logic reads of an image.

use vstd::prelude::*;

verus! {

/// A `width × height` grid of pixels stored row by row.
pub struct Image<P> {
    width: usize,
    height: usize,
    pixels: Vec<P>,
}

/// Row-major index of `(x, y)` in a grid `width` pixels wide.
pub open spec fn grid_index(width: int, x: int, y: int) -> int {
    y * width + x
}

/// Row-major indices of a `width × height` grid stay below `width * height`.
pub proof fn lemma_grid_index_bounds(width: int, height: int, x: int, y: int)
    requires
        0 <= x < width,
        0 <= y < height,
    ensures
        0 <= grid_index(width, x, y) < width * height,
        grid_index(width, 0, y) + width <= width * height,
{
    assert(y * width + width == (y + 1) * width) by (nonlinear_arith);
    assert((y + 1) * width <= height * width) by (nonlinear_arith)
        requires
            y + 1 <= height,
            width >= 0,
    ;
    assert(0 <= y * width) by (nonlinear_arith)
        requires
            y >= 0,
            width >= 0,
    ;
    assert(height * width == width * height) by (nonlinear_arith);
}

/// Row `y` of a `width × height` grid ends within the grid.
pub proof fn lemma_row_end(width: int, height: int, y: int)
    requires
        0 <= y < height,
        0 <= width,
    ensures
        0 <= grid_index(width, 0, y),
        grid_index(width, 0, y) + width <= width * height,
{
    assert(y * width + width == (y + 1) * width) by (nonlinear_arith);
    assert((y + 1) * width <= height * width) by (nonlinear_arith)
        requires
            y + 1 <= height,
            width >= 0,
    ;
    assert(0 <= y * width) by (nonlinear_arith)
        requires
            y >= 0,
            width >= 0,
    ;
    assert(height * width == width * height) by (nonlinear_arith);
}

/// Distinct cells of a grid have distinct row-major indices.
pub proof fn lemma_grid_index_injective(width: int, x1: int, y1: int, x2: int, y2: int)
    requires
        0 <= x1 < width,
        0 <= x2 < width,
        0 <= y1,
        0 <= y2,
        grid_index(width, x1, y1) == grid_index(width, x2, y2),
    ensures
        x1 == x2,
        y1 == y2,
{
    if y1 < y2 {
        assert(y1 * width + x1 < y2 * width + x2) by (nonlinear_arith)
            requires
                0 <= x1 < width,
                0 <= x2,
                y1 < y2,
        ;
    } else if y2 < y1 {
        assert(y2 * width + x2 < y1 * width + x1) by (nonlinear_arith)
            requires
                0 <= x2 < width,
                0 <= x1,
                y2 < y1,
        ;
    }
}

impl<P: Copy> Image<P> {
    /// Width in pixels.
    pub closed spec fn spec_width(&self) -> nat {
        self.width as nat
    }

    /// Height in pixels.
    pub closed spec fn spec_height(&self) -> nat {
        self.height as nat
    }

    /// The pixels, row by row.
    pub closed spec fn spec_pixels(&self) -> Seq<P> {
        self.pixels@
    }

    /// The image holds exactly `width * height` pixels.
    pub open spec fn wf(&self) -> bool {
        self.spec_pixels().len() == self.spec_width() * self.spec_height()
    }

    /// The pixel at column `x`, row `y`.
    pub open spec fn pixel(&self, x: int, y: int) -> P {
        self.spec_pixels()[grid_index(self.spec_width() as int, x, y)]
    }

    /// An image of the given size with every pixel set to `value`.
    pub fn fill(width: usize, height: usize, value: P) -> (img: Image<P>)
        requires
            width * height <= usize::MAX,
        ensures
            img.wf(),
            img.spec_width() == width,
            img.spec_height() == height,
            forall|i: int| 0 <= i < img.spec_pixels().len() ==> img.spec_pixels()[i] == value,
    {
        let n = width * height;
        let mut pixels: Vec<P> = Vec::new();
        let mut i: usize = 0;
        while i < n
            invariant
                0 <= i <= n,
                pixels@.len() == i,
                forall|j: int| 0 <= j < i ==> pixels@[j] == value,
            decreases n - i,
        {
            pixels.push(value);
            i = i + 1;
        }
        Image { width, height, pixels }
    }

    /// An image built from `width * height` pixels given row by row, or
    /// `None` when the number of pixels does not match the size.
    pub fn from_pixels(width: usize, height: usize, pixels: Vec<P>) -> (img: Option<Image<P>>)
        ensures
            img is Some <==> pixels@.len() == width * height,
            img matches Some(i) ==> i.wf() && i.spec_width() == width && i.spec_height() == height
                && i.spec_pixels() == pixels@,
    {
        match width.checked_mul(height) {
            Some(n) => {
                if pixels.len() == n {
                    Some(Image { width, height, pixels })
                } else {
                    None
                }
            },
            None => {
                assert(pixels@.len() == pixels.len());
                None
            },
        }
    }

    /// Width in pixels.
    pub fn width(&self) -> (w: usize)
        ensures
            w == self.spec_width(),
    {
        self.width
    }

    /// Height in pixels.
    pub fn height(&self) -> (h: usize)
        ensures
            h == self.spec_height(),
    {
        self.height
    }

    /// The pixels, row by row.
    pub fn as_slice(&self) -> (s: &[P])
        ensures
            s@ == self.spec_pixels(),
    {
        self.pixels.as_slice()
    }

    /// The pixel at column `x`, row `y`.
    pub fn pixel_at(&self, x: usize, y: usize) -> (p: P)
        requires
            self.wf(),
            x < self.spec_width(),
            y < self.spec_height(),
        ensures
            p == self.pixel(x as int, y as int),
    {
        proof {
            lemma_grid_index_bounds(self.width as int, self.height as int, x as int, y as int);
            assert(self.pixels@.len() == self.pixels.len());
            assert(y * self.width <= y * self.width + x);
        }
        self.pixels[y * self.width + x]
    }

    /// The pixel at column `x`, row `y`, or `None` outside the image.
    pub fn get(&self, x: usize, y: usize) -> (p: Option<P>)
        requires
            self.wf(),
        ensures
            p is Some <==> x < self.spec_width() && y < self.spec_height(),
            p matches Some(v) ==> v == self.pixel(x as int, y as int),
    {
        if x < self.width && y < self.height {
            Some(self.pixel_at(x, y))
        } else {
            None
        }
    }

    /// Overwrite the pixel at column `x`, row `y`.
    pub fn set_pixel(&mut self, x: usize, y: usize, value: P)
        requires
            old(self).wf(),
            x < old(self).spec_width(),
            y < old(self).spec_height(),
        ensures
            final(self).wf(),
            final(self).spec_width() == old(self).spec_width(),
            final(self).spec_height() == old(self).spec_height(),
            final(self).spec_pixels() == old(self).spec_pixels().update(
                grid_index(old(self).spec_width() as int, x as int, y as int),
                value,
            ),
            forall|px: int, py: int|
                0 <= px < old(self).spec_width() && 0 <= py < old(self).spec_height()
                    ==> #[trigger] final(self).pixel(px, py) == if px == x && py == y {
                    value
                } else {
                    old(self).pixel(px, py)
                },
    {
        proof {
            lemma_grid_index_bounds(self.width as int, self.height as int, x as int, y as int);
            assert(self.pixels@.len() == self.pixels.len());
            assert(y * self.width <= y * self.width + x);
        }
        let i = y * self.width + x;
        let ghost before = *self;
        self.pixels.set(i, value);
        proof {
            assert forall|px: int, py: int|
                0 <= px < before.spec_width() && 0 <= py < before.spec_height()
                    implies #[trigger] self.pixel(px, py) == if px == x && py == y {
                    value
                } else {
                    before.pixel(px, py)
                } by {
                lemma_grid_index_bounds(self.width as int, self.height as int, px, py);
                if grid_index(self.width as int, px, py) == i {
                    lemma_grid_index_injective(self.width as int, px, py, x as int, y as int);
                }
            }
        }
    }
}

} // verus!

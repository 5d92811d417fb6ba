//! Histogram bar charts: any number of translucent layers of bin counts
//! drawn into one sRGB image that shares frame, axis and y-scale.

use vstd::prelude::*;

use crate::image::{Image, grid_index, lemma_grid_index_bounds};
use crate::pixel::Srgba8;

verus! {

// ── Plot-level options ──────────────────────────────────────────────────────

/// Frame-level configuration of a chart, shared by all its layers: canvas
/// size, padding, background and axis colours, and whether bar heights are
/// log-scaled.
#[derive(Clone, Copy, Debug)]
pub struct HistogramPlotOptions {
    pub width: u32,
    pub height: u32,
    pub padding: u32,
    pub background: Srgba8,
    pub axis: Srgba8,
    pub log_scale: bool,
}

impl Default for HistogramPlotOptions {
    fn default() -> (o: Self)
        ensures
            o.width == 512,
            o.height == 256,
            o.padding == 8,
            o.background == (Srgba8 { r: 24, g: 24, b: 28, a: 255 }),
            o.axis == (Srgba8 { r: 96, g: 96, b: 104, a: 255 }),
            !o.log_scale,
    {
        HistogramPlotOptions {
            width: 512,
            height: 256,
            padding: 8,
            background: Srgba8::new(24, 24, 28, 255),
            axis: Srgba8::new(96, 96, 104, 255),
            log_scale: false,
        }
    }
}

/// Configuration of a chart of a single histogram: the plot options plus
/// one bar colour.
#[derive(Clone, Copy, Debug)]
pub struct HistogramRenderOptions {
    pub width: u32,
    pub height: u32,
    pub padding: u32,
    pub background: Srgba8,
    pub bar: Srgba8,
    pub axis: Srgba8,
    pub log_scale: bool,
}

impl Default for HistogramRenderOptions {
    fn default() -> (o: Self)
        ensures
            o.width == 512,
            o.height == 256,
            o.padding == 8,
            o.background == (Srgba8 { r: 24, g: 24, b: 28, a: 255 }),
            o.bar == (Srgba8 { r: 180, g: 200, b: 230, a: 255 }),
            o.axis == (Srgba8 { r: 96, g: 96, b: 104, a: 255 }),
            !o.log_scale,
    {
        HistogramRenderOptions {
            width: 512,
            height: 256,
            padding: 8,
            background: Srgba8::new(24, 24, 28, 255),
            bar: Srgba8::new(180, 200, 230, 255),
            axis: Srgba8::new(96, 96, 104, 255),
            log_scale: false,
        }
    }
}

impl HistogramRenderOptions {
    /// Split into the frame-level plot options and the single bar colour.
    pub fn split(&self) -> (parts: (HistogramPlotOptions, Srgba8))
        ensures
            parts.0.width == self.width,
            parts.0.height == self.height,
            parts.0.padding == self.padding,
            parts.0.background == self.background,
            parts.0.axis == self.axis,
            parts.0.log_scale == self.log_scale,
            parts.1 == self.bar,
    {
        (
            HistogramPlotOptions {
                width: self.width,
                height: self.height,
                padding: self.padding,
                background: self.background,
                axis: self.axis,
                log_scale: self.log_scale,
            },
            self.bar,
        )
    }
}

// ── Layers ──────────────────────────────────────────────────────────────────

/// One translucent layer of a chart: bin counts, one per bar, and a bar
/// colour with straight alpha.
#[derive(Clone, Copy, Debug)]
pub struct HistogramLayer<'a> {
    pub bins: &'a [u64],
    pub color: Srgba8,
}

/// `fovea`'s histogram type, carried through as an opaque value.
#[verifier::external_type_specification]
#[verifier::external_body]
#[verifier::reject_recursive_types(S)]
#[verifier::reject_recursive_types(V)]
pub struct ExHistogram<S, V>(fovea::analyze::histogram::Histogram<S, V>);

/// Calls `fovea`'s `Histogram::bins`, the in-range bin counts. The contract
/// leaves the returned slice unconstrained: the histogram type is generic and
/// opaque here, so no clause ties the counts to `h`.
#[verifier::external_body]
fn histogram_bins<'a, S, V>(h: &'a fovea::analyze::histogram::Histogram<S, V>) -> &'a [u64] {
    h.bins()
}

impl<'a> HistogramLayer<'a> {
    /// A layer from raw bins and a colour.
    pub fn new(bins: &'a [u64], color: Srgba8) -> (layer: Self)
        ensures
            layer.bins@ == bins@,
            layer.color == color,
    {
        HistogramLayer { bins, color }
    }

    /// A layer from the bins of a `fovea` histogram and a colour; only the
    /// strategy-independent bin counts are read.
    pub fn from_histogram<S, V>(h: &'a fovea::analyze::histogram::Histogram<S, V>, color: Srgba8) -> (layer: Self)
        ensures
            layer.color == color,
    {
        Self::new(histogram_bins(h), color)
    }
}

// ── Compositing ─────────────────────────────────────────────────────────────

/// One channel of a straight-alpha blend with source alpha `sa`, rounded to
/// nearest.
pub open spec fn blend_channel(s: u8, d: u8, sa: u8) -> u8 {
    ((s * sa + d * (255 - sa) + 127) / 255) as u8
}

/// Alpha of a straight-alpha "source over destination" blend, saturated at
/// 255.
pub open spec fn blend_alpha(sa: u8, da: u8) -> u8 {
    let v = sa + (da * (255 - sa) + 127) / 255;
    if v > 255 {
        255u8
    } else {
        v as u8
    }
}

/// Straight-alpha "source over destination" in 8-bit sRGB space.
pub open spec fn spec_blend_over(src: Srgba8, dst: Srgba8) -> Srgba8 {
    if src.a == 0 {
        dst
    } else if src.a == 255 {
        src
    } else {
        Srgba8 {
            r: blend_channel(src.r, dst.r, src.a),
            g: blend_channel(src.g, dst.g, src.a),
            b: blend_channel(src.b, dst.b, src.a),
            a: blend_alpha(src.a, dst.a),
        }
    }
}

fn mix_channel(s: u8, d: u8, sa: u32) -> (out: u8)
    requires
        sa <= 255,
    ensures
        out == blend_channel(s, d, sa as u8),
{
    let inv = 255 - sa;
    assert((s as u32) * sa <= 255 * 255) by (nonlinear_arith)
        requires
            s <= 255,
            sa <= 255,
    ;
    assert((d as u32) * inv <= 255 * 255) by (nonlinear_arith)
        requires
            d <= 255,
            inv <= 255,
    ;
    let v = (s as u32) * sa + (d as u32) * inv;
    assert(v <= 255 * 255) by (nonlinear_arith)
        requires
            v == (s as u32) * sa + (d as u32) * inv,
            s <= 255,
            d <= 255,
            sa <= 255,
            inv == 255 - sa,
    ;
    assert((v + 127) / 255 <= 255) by (nonlinear_arith)
        requires
            v <= 255 * 255,
    ;
    ((v + 127) / 255) as u8
}

/// Straight-alpha "source over destination" blend in 8-bit sRGB space; not
/// colour-managed. A transparent source leaves the destination, an opaque
/// one replaces it.
pub fn blend_over(src: Srgba8, dst: Srgba8) -> (out: Srgba8)
    ensures
        out == spec_blend_over(src, dst),
{
    let sa = src.a as u32;
    if sa == 0 {
        return dst;
    }
    if sa == 255 {
        return src;
    }
    let inv = 255 - sa;
    let da = dst.a as u32;
    assert(da * inv <= 255 * 255) by (nonlinear_arith)
        requires
            da <= 255,
            inv <= 255,
    ;
    let out_a = sa + (da * inv + 127) / 255;
    let out_a: u8 = if out_a > 255 {
        255
    } else {
        out_a as u8
    };
    Srgba8::new(
        mix_channel(src.r, dst.r, sa),
        mix_channel(src.g, dst.g, sa),
        mix_channel(src.b, dst.b, sa),
        out_a,
    )
}

/// Law: each blended colour channel lies between the source and destination
/// channels, and a channel on which both agree keeps its value.
pub proof fn lemma_blend_channel_between(s: u8, d: u8, sa: u8)
    ensures
        (s <= d ==> s <= blend_channel(s, d, sa) <= d),
        (d <= s ==> d <= blend_channel(s, d, sa) <= s),
        blend_channel(s, s, sa) == s,
{
    let inv: int = 255 - sa;
    let v: int = s * sa + d * inv;
    let w: int = s * sa + s * inv;
    assert(w == 255 * s) by (nonlinear_arith)
        requires
            w == s * sa + s * inv,
            inv == 255 - sa,
    ;
    assert((w + 127) / 255 == s) by (nonlinear_arith)
        requires
            w == 255 * s,
            0 <= s,
    ;
    if s <= d {
        assert(255 * s <= v <= 255 * d) by (nonlinear_arith)
            requires
                v == s * sa + d * inv,
                inv == 255 - sa,
                0 <= sa <= 255,
                s <= d,
        ;
        assert(s <= (v + 127) / 255 <= d) by (nonlinear_arith)
            requires
                255 * s <= v <= 255 * d,
                0 <= s,
        ;
    }
    if d <= s {
        assert(255 * d <= v <= 255 * s) by (nonlinear_arith)
            requires
                v == s * sa + d * inv,
                inv == 255 - sa,
                0 <= sa <= 255,
                d <= s,
        ;
        assert(d <= (v + 127) / 255 <= s) by (nonlinear_arith)
            requires
                255 * d <= v <= 255 * s,
                0 <= d,
        ;
    }
}

/// Law: "source over destination" with straight alpha. A transparent
/// source leaves the destination and an opaque one replaces it; otherwise,
/// with `sa` the source alpha, each colour channel is
/// `(s·sa + d·(255 − sa)) / 255` and the alpha is `sa + da·(255 − sa) / 255`,
/// both rounded to the nearest byte (within half a step: 255 times the
/// result is within 127 of 255 times the exact value).
pub proof fn lemma_blend_over_is_source_over(src: Srgba8, dst: Srgba8)
    ensures
        src.a == 0 ==> spec_blend_over(src, dst) == dst,
        src.a == 255 ==> spec_blend_over(src, dst) == src,
        0 < src.a < 255 ==> {
            let o = spec_blend_over(src, dst);
            let sa = src.a as int;
            &&& -127 <= 255 * o.r - (src.r * sa + dst.r * (255 - sa)) <= 127
            &&& -127 <= 255 * o.g - (src.g * sa + dst.g * (255 - sa)) <= 127
            &&& -127 <= 255 * o.b - (src.b * sa + dst.b * (255 - sa)) <= 127
            &&& -127 <= 255 * o.a - (255 * sa + dst.a * (255 - sa)) <= 127
        },
{
    if 0 < src.a < 255 {
        lemma_blend_channel_rounds(src.r, dst.r, src.a);
        lemma_blend_channel_rounds(src.g, dst.g, src.a);
        lemma_blend_channel_rounds(src.b, dst.b, src.a);
        let sa = src.a as int;
        let x = dst.a * (255 - sa);
        let q = (x + 127) / 255;
        assert(0 <= x <= 255 * (255 - sa)) by (nonlinear_arith)
            requires
                x == dst.a * (255 - sa),
                0 <= dst.a <= 255,
                0 < sa < 255,
        ;
        assert(x - 127 <= 255 * q <= x + 127 && q <= 255 - sa) by (nonlinear_arith)
            requires
                q == (x + 127) / 255,
                0 <= x <= 255 * (255 - sa),
        ;
        assert(blend_alpha(src.a, dst.a) == sa + q);
    }
}

/// A blended channel is its exact mix rounded to the nearest byte.
proof fn lemma_blend_channel_rounds(s: u8, d: u8, sa: u8)
    ensures
        -127 <= 255 * blend_channel(s, d, sa) - (s * sa + d * (255 - sa)) <= 127,
{
    let v = s * sa + d * (255 - sa);
    let q = (v + 127) / 255;
    assert(0 <= v <= 255 * 255) by (nonlinear_arith)
        requires
            v == s * sa + d * (255 - sa),
            0 <= s <= 255,
            0 <= d <= 255,
            0 <= sa <= 255,
    ;
    assert(v - 127 <= 255 * q <= v + 127 && q <= 255) by (nonlinear_arith)
        requires
            q == (v + 127) / 255,
            0 <= v <= 255 * 255,
    ;
}

/// Law: blending over an opaque destination gives an opaque result, and the
/// result is never more transparent than the source.
pub proof fn lemma_blend_alpha(src: Srgba8, dst: Srgba8)
    ensures
        dst.a == 255 ==> spec_blend_over(src, dst).a == 255,
        spec_blend_over(src, dst).a >= src.a,
{
    if src.a != 0 && src.a != 255 {
        let inv = 255 - src.a;
        assert(dst.a == 255 ==> (dst.a * inv + 127) / 255 == inv) by (nonlinear_arith)
            requires
                0 <= inv <= 255,
        ;
        assert(0 <= (dst.a * inv + 127) / 255) by (nonlinear_arith)
            requires
                0 <= inv,
                0 <= dst.a,
        ;
    }
}

// ── Chart geometry ──────────────────────────────────────────────────────────

/// Where the parts of a chart lie in its image (top-left origin).
#[derive(Clone, Copy, Debug, PartialEq, Eq, Structural)]
pub struct PlotLayout {
    /// Image width: the requested width, at least 1.
    pub width: usize,
    /// Image height: the requested height, at least 1.
    pub height: usize,
    /// Padding, at most a quarter of either side.
    pub pad: usize,
    /// First column of the plot area.
    pub x0: usize,
    /// One past the last column of the plot area.
    pub x1: usize,
    /// First row of the plot area.
    pub y0: usize,
    /// One past the last row of the plot area.
    pub y1: usize,
    /// Columns of the plot area, one bar slot each.
    pub plot_w: usize,
    /// Rows of the plot area.
    pub plot_h: usize,
    /// Row of the axis line, the plot area's last row.
    pub baseline: usize,
    /// Rows available to a bar, above the axis.
    pub usable_h: usize,
}

/// The layout of a chart drawn with the given options.
pub open spec fn spec_plot_layout(opts: HistogramPlotOptions) -> PlotLayout {
    let w: int = if opts.width == 0 { 1 } else { opts.width as int };
    let h: int = if opts.height == 0 { 1 } else { opts.height as int };
    let pad: int = vstd::math::min(vstd::math::min(opts.padding as int, w / 4), h / 4);
    PlotLayout {
        width: w as usize,
        height: h as usize,
        pad: pad as usize,
        x0: pad as usize,
        x1: (w - pad) as usize,
        y0: pad as usize,
        y1: (h - pad) as usize,
        plot_w: (w - 2 * pad) as usize,
        plot_h: (h - 2 * pad) as usize,
        baseline: (h - pad - 1) as usize,
        usable_h: (h - 2 * pad - 1) as usize,
    }
}

/// Compute the layout of a chart drawn with the given options.
pub fn plot_layout(opts: &HistogramPlotOptions) -> (l: PlotLayout)
    ensures
        l == spec_plot_layout(*opts),
        1 <= l.plot_w,
        1 <= l.plot_h,
        l.x0 < l.x1 <= l.width,
        l.y0 < l.y1 <= l.height,
        l.plot_w == l.x1 - l.x0,
        l.plot_h == l.y1 - l.y0,
        l.baseline == l.y1 - 1,
        l.usable_h == l.plot_h - 1,
        l.baseline - l.usable_h == l.y0,
        l.width <= u32::MAX,
        l.height <= u32::MAX,
{
    let w = if opts.width > 1 { opts.width } else { 1 } as usize;
    let height_px = if opts.height > 1 { opts.height } else { 1 } as usize;
    let q = if w / 4 < height_px / 4 { w / 4 } else { height_px / 4 };
    let pad = if (opts.padding as usize) < q { opts.padding as usize } else { q };
    let plot_x0 = pad;
    let plot_y0 = pad;
    let sx = w.saturating_sub(pad);
    let plot_x1 = if sx > plot_x0 + 1 { sx } else { plot_x0 + 1 };
    let sy = height_px.saturating_sub(pad);
    let plot_y1 = if sy > plot_y0 + 1 { sy } else { plot_y0 + 1 };
    let plot_w = plot_x1 - plot_x0;
    let plot_h = plot_y1 - plot_y0;
    let baseline_y = plot_y1.saturating_sub(1);
    let usable_h = plot_h.saturating_sub(1);
    PlotLayout {
        width: w,
        height: height_px,
        pad,
        x0: plot_x0,
        x1: plot_x1,
        y0: plot_y0,
        y1: plot_y1,
        plot_w,
        plot_h,
        baseline: baseline_y,
        usable_h,
    }
}

/// First bin of the run that bar slot `col` of `plot_w` pools over `n` bins.
pub open spec fn column_lo(col: int, n: int, plot_w: int) -> int {
    col * n / plot_w
}

/// One past the last bin of the run that bar slot `col` pools: at least one
/// bin, never past the end.
pub open spec fn column_hi(col: int, n: int, plot_w: int) -> int {
    let lo = column_lo(col, n, plot_w);
    let hi = (col + 1) * n / plot_w;
    vstd::math::min(vstd::math::max(hi, lo + 1), n)
}

/// The run of bins `[lo, hi)` that bar slot `col` of `plot_w` pools over
/// `n > 0` bins.
pub fn column_bin_range(col: usize, n: usize, plot_w: usize) -> (r: (usize, usize))
    requires
        col < plot_w,
        0 < n,
    ensures
        r.0 == column_lo(col as int, n as int, plot_w as int),
        r.1 == column_hi(col as int, n as int, plot_w as int),
        r.0 < r.1 <= n,
{
    proof {
        assert((col as int) * (n as int) / (plot_w as int) < n) by (nonlinear_arith)
            requires
                col < plot_w,
                0 < n,
        ;
        assert((col as int + 1) * (n as int) / (plot_w as int) <= n) by (nonlinear_arith)
            requires
                col + 1 <= plot_w,
                0 < n,
        ;
        assert(0 <= (col as int) * (n as int) / (plot_w as int)) by (nonlinear_arith)
            requires
                0 <= col,
                0 < n,
                0 < plot_w,
        ;
        assert(col as int <= u64::MAX && n as int <= u64::MAX);
        assert((col as int + 1) * (n as int) <= 0x1_0000_0000_0000_0000 * 0xffff_ffff_ffff_ffff)
            by (nonlinear_arith)
            requires
                0 <= col <= 0xffff_ffff_ffff_ffff,
                0 <= n <= 0xffff_ffff_ffff_ffff,
        ;
        assert((col as int) * (n as int) <= (col as int + 1) * (n as int)) by (nonlinear_arith)
            requires
                0 <= n,
        ;
    }
    let lo = ((col as u128 * n as u128) / plot_w as u128) as usize;
    let hi_raw = (((col as u128 + 1) * n as u128) / plot_w as u128) as usize;
    let hi = if hi_raw > lo + 1 { hi_raw } else { lo + 1 };
    let hi = if hi < n { hi } else { n };
    (lo, hi)
}

/// Law: when there are at least as many bins as bar slots, the slots pool
/// consecutive runs that together cover every bin exactly once.
pub proof fn lemma_columns_partition_bins(col: int, n: int, plot_w: int)
    requires
        0 < plot_w <= n,
        0 <= col < plot_w,
    ensures
        column_hi(col, n, plot_w) == (col + 1) * n / plot_w,
        col + 1 < plot_w ==> column_hi(col, n, plot_w) == column_lo(col + 1, n, plot_w),
        column_lo(0, n, plot_w) == 0,
        column_hi(plot_w - 1, n, plot_w) == n,
{
    assert(col * n / plot_w + 1 <= (col + 1) * n / plot_w) by (nonlinear_arith)
        requires
            0 < plot_w <= n,
            0 <= col,
    ;
    assert((col + 1) * n <= plot_w * n) by (nonlinear_arith)
        requires
            0 <= col + 1 <= plot_w,
            0 < n,
    ;
    assert((col + 1) * n / plot_w <= plot_w * n / plot_w) by (nonlinear_arith)
        requires
            (col + 1) * n <= plot_w * n,
            0 < plot_w,
    ;
    assert(plot_w * n / plot_w == n) by (nonlinear_arith)
        requires
            0 < plot_w,
    ;
    assert(0 * n / plot_w == 0) by (nonlinear_arith)
        requires
            0 < plot_w,
    ;
}

/// The largest count of a run of bins, 0 for an empty run.
pub open spec fn seq_max(s: Seq<u64>) -> u64
    decreases s.len(),
{
    if s.len() == 0 {
        0
    } else {
        let m = seq_max(s.drop_last());
        if s.last() > m {
            s.last()
        } else {
            m
        }
    }
}

/// The maximum is at least every element, and is 0 or one of the elements.
pub proof fn lemma_seq_max(s: Seq<u64>)
    ensures
        forall|i: int| 0 <= i < s.len() ==> #[trigger] s[i] <= seq_max(s),
        seq_max(s) == 0 || exists|i: int| 0 <= i < s.len() && s[i] == seq_max(s),
    decreases s.len(),
{
    if s.len() > 0 {
        lemma_seq_max(s.drop_last());
        assert forall|i: int| 0 <= i < s.len() implies #[trigger] s[i] <= seq_max(s) by {
            if i < s.len() - 1 {
                assert(s[i] == s.drop_last()[i]);
            }
        }
        if seq_max(s) != 0 && seq_max(s) != s.last() {
            let j = choose|j: int| 0 <= j < s.drop_last().len() && s.drop_last()[j] == seq_max(
                s.drop_last(),
            );
            assert(s[j] == seq_max(s));
        }
    }
}

/// The largest count among `bins[lo..hi]`, 0 for an empty run.
pub fn max_in_range(bins: &[u64], lo: usize, hi: usize) -> (m: u64)
    requires
        lo <= hi <= bins@.len(),
    ensures
        m == seq_max(bins@.subrange(lo as int, hi as int)),
{
    let mut m: u64 = 0;
    let mut i = lo;
    while i < hi
        invariant
            lo <= i <= hi <= bins@.len(),
            m == seq_max(bins@.subrange(lo as int, i as int)),
        decreases hi - i,
    {
        assert(bins@.subrange(lo as int, i + 1).drop_last() =~= bins@.subrange(lo as int, i as int));
        let v = bins[i];
        if v > m {
            m = v;
        }
        i = i + 1;
    }
    m
}

/// A layer as its bin counts and bar colour.
pub type LayerView = (Seq<u64>, Srgba8);

/// The layers as bin counts and colours.
pub open spec fn layers_view(layers: &[HistogramLayer]) -> Seq<LayerView> {
    Seq::new(layers@.len(), |i: int| (layers@[i].bins@, layers@[i].color))
}

/// The largest count over all bins of all layers, 0 if there is none.
pub open spec fn layers_max(layers: Seq<LayerView>) -> u64
    decreases layers.len(),
{
    if layers.len() == 0 {
        0
    } else {
        let m = layers_max(layers.drop_last());
        let v = seq_max(layers.last().0);
        if v > m {
            v
        } else {
            m
        }
    }
}

/// The largest count over all bins of all layers: the shared y-scale.
pub fn max_bin_count(layers: &[HistogramLayer]) -> (m: u64)
    ensures
        m == layers_max(layers_view(layers)),
{
    let mut m: u64 = 0;
    let mut k: usize = 0;
    while k < layers.len()
        invariant
            0 <= k <= layers@.len(),
            m == layers_max(layers_view(layers).take(k as int)),
        decreases layers@.len() - k,
    {
        let bins = layers[k].bins;
        let v = max_in_range(bins, 0, bins.len());
        assert(bins@.subrange(0, bins@.len() as int) =~= bins@);
        assert(layers_view(layers).take(k + 1).drop_last() =~= layers_view(layers).take(k as int));
        if v > m {
            m = v;
        }
        k = k + 1;
    }
    assert(layers_view(layers).take(layers@.len() as int) =~= layers_view(layers));
    m
}

// ── Rendering ───────────────────────────────────────────────────────────────

/// The chart frame: background everywhere, the axis colour along the
/// baseline of the plot area.
pub open spec fn frame_pixel(opts: HistogramPlotOptions, x: int, y: int) -> Srgba8 {
    let l = spec_plot_layout(opts);
    if y == l.baseline && l.x0 <= x < l.x1 {
        opts.axis
    } else {
        opts.background
    }
}

/// The largest count of the bins that bar slot `col` pools (max-pooling,
/// so that narrow spikes survive).
pub open spec fn column_peak(bins: Seq<u64>, col: int, plot_w: int) -> u64 {
    seq_max(
        bins.subrange(
            column_lo(col, bins.len() as int, plot_w),
            column_hi(col, bins.len() as int, plot_w),
        ),
    )
}

/// Whether `(x, y)` lies in the bar that a layer draws in its slot when the
/// bar is `h` rows high (clipped to the rows available). Empty layers and
/// slots whose bins are all zero draw no bar.
pub open spec fn in_bar(bins: Seq<u64>, l: PlotLayout, h: int, x: int, y: int) -> bool {
    &&& bins.len() > 0
    &&& l.x0 <= x < l.x1
    &&& column_peak(bins, x - l.x0, l.plot_w as int) > 0
    &&& l.baseline - vstd::math::min(h, l.usable_h as int) <= y < l.baseline
}

/// A pixel after one layer is drawn over `prev`, with bar heights `row` (one
/// per slot): blended with the layer colour inside its bar.
pub open spec fn layer_pixel(layer: LayerView, l: PlotLayout, row: Seq<usize>, prev: Srgba8, x: int, y: int) -> Srgba8 {
    if in_bar(layer.0, l, row[x - l.x0] as int, x, y) {
        spec_blend_over(layer.1, prev)
    } else {
        prev
    }
}

/// A pixel of the chart after the first `k` layers are drawn in order over
/// the frame, layer `i` with bar heights `heights[i]`.
pub open spec fn chart_pixel(layers: Seq<LayerView>, opts: HistogramPlotOptions, heights: Seq<Seq<usize>>, k: int, x: int, y: int) -> Srgba8
    decreases k,
{
    if k <= 0 {
        frame_pixel(opts, x, y)
    } else {
        layer_pixel(
            layers[k - 1],
            spec_plot_layout(opts),
            heights[k - 1],
            chart_pixel(layers, opts, heights, k - 1, x, y),
            x,
            y,
        )
    }
}

/// Whether any bar is drawn: there are layers, some bin is non-zero, and
/// the plot area has a row above the axis.
pub open spec fn draws_bars(layers: Seq<LayerView>, opts: HistogramPlotOptions) -> bool {
    layers.len() > 0 && layers_max(layers) > 0 && spec_plot_layout(opts).usable_h > 0
}

/// A pixel of the finished chart.
pub open spec fn histogram_pixel(layers: Seq<LayerView>, opts: HistogramPlotOptions, heights: Seq<Seq<usize>>, x: int, y: int) -> Srgba8 {
    if draws_bars(layers, opts) {
        chart_pixel(layers, opts, heights, layers.len() as int, x, y)
    } else {
        frame_pixel(opts, x, y)
    }
}

/// The first `k` layers of a chart do not depend on heights given for later
/// layers.
proof fn lemma_chart_pixel_prefix(layers: Seq<LayerView>, opts: HistogramPlotOptions, heights: Seq<Seq<usize>>, row: Seq<usize>, k: int, x: int, y: int)
    requires
        k <= heights.len(),
    ensures
        chart_pixel(layers, opts, heights.push(row), k, x, y) == chart_pixel(
            layers,
            opts,
            heights,
            k,
            x,
            y,
        ),
    decreases k,
{
    if k > 0 {
        lemma_chart_pixel_prefix(layers, opts, heights, row, k - 1, x, y);
        assert(heights.push(row)[k - 1] == heights[k - 1]);
    }
}

/// Draw the chart frame: background, and the axis along the baseline.
fn draw_frame(opts: &HistogramPlotOptions, l: &PlotLayout) -> (img: Image<Srgba8>)
    requires
        *l == spec_plot_layout(*opts),
        l.x0 < l.x1 <= l.width,
        l.baseline < l.height,
        l.width * l.height <= usize::MAX,
    ensures
        img.wf(),
        img.spec_width() == l.width,
        img.spec_height() == l.height,
        forall|x: int, y: int|
            0 <= x < l.width && 0 <= y < l.height ==> #[trigger] img.pixel(x, y) == frame_pixel(
                *opts,
                x,
                y,
            ),
{
    let mut img = Image::fill(l.width, l.height, opts.background);
    proof {
        assert forall|x: int, y: int| 0 <= x < l.width && 0 <= y < l.height implies #[trigger] img.pixel(
            x,
            y,
        ) == opts.background by {
            lemma_grid_index_bounds(l.width as int, l.height as int, x, y);
        }
    }
    let mut x = l.x0;
    while x < l.x1
        invariant
            *l == spec_plot_layout(*opts),
            l.x0 <= x <= l.x1 <= l.width,
            l.baseline < l.height,
            img.wf(),
            img.spec_width() == l.width,
            img.spec_height() == l.height,
            forall|px: int, py: int|
                0 <= px < l.width && 0 <= py < l.height ==> #[trigger] img.pixel(px, py) == if py
                    == l.baseline && l.x0 <= px < x {
                    opts.axis
                } else {
                    opts.background
                },
        decreases l.x1 - x,
    {
        img.set_pixel(x, l.baseline, opts.axis);
        x = x + 1;
    }
    img
}

/// Blend `color` over rows `top..bottom` of column `x`.
fn draw_bar(img: &mut Image<Srgba8>, x: usize, top: usize, bottom: usize, color: Srgba8)
    requires
        old(img).wf(),
        x < old(img).spec_width(),
        top <= bottom <= old(img).spec_height(),
    ensures
        final(img).wf(),
        final(img).spec_width() == old(img).spec_width(),
        final(img).spec_height() == old(img).spec_height(),
        forall|px: int, py: int|
            0 <= px < old(img).spec_width() && 0 <= py < old(img).spec_height()
                ==> #[trigger] final(img).pixel(px, py) == if px == x && top <= py < bottom {
                spec_blend_over(color, old(img).pixel(px, py))
            } else {
                old(img).pixel(px, py)
            },
{
    let ghost before = *img;
    let mut y = top;
    while y < bottom
        invariant
            top <= y <= bottom <= before.spec_height(),
            x < before.spec_width(),
            before.wf(),
            img.wf(),
            img.spec_width() == before.spec_width(),
            img.spec_height() == before.spec_height(),
            forall|px: int, py: int|
                0 <= px < before.spec_width() && 0 <= py < before.spec_height()
                    ==> #[trigger] img.pixel(px, py) == if px == x && top <= py < y {
                    spec_blend_over(color, before.pixel(px, py))
                } else {
                    before.pixel(px, py)
                },
        decreases bottom - y,
    {
        let cur = img.pixel_at(x, y);
        img.set_pixel(x, y, blend_over(color, cur));
        y = y + 1;
    }
}

/// Draw one layer over the image; returns the bar heights it asked for, one
/// per slot (0 where no height was asked for).
fn draw_layer<F: Fn(u64, u64, usize, bool) -> usize>(
    img: &mut Image<Srgba8>,
    layer: &HistogramLayer,
    opts: &HistogramPlotOptions,
    l: &PlotLayout,
    max: u64,
    bar_height: &F,
) -> (row: Ghost<Seq<usize>>)
    requires
        old(img).wf(),
        old(img).spec_width() == l.width,
        old(img).spec_height() == l.height,
        *l == spec_plot_layout(*opts),
        1 <= l.plot_w,
        l.x0 < l.x1 <= l.width,
        l.plot_w == l.x1 - l.x0,
        l.baseline < l.height,
        l.baseline - l.usable_h == l.y0,
        forall|p: u64, m: u64, u: usize, lg: bool| bar_height.requires((p, m, u, lg)),
    ensures
        final(img).wf(),
        final(img).spec_width() == l.width,
        final(img).spec_height() == l.height,
        row@.len() == l.plot_w,
        forall|col: int|
            0 <= col < l.plot_w && layer.bins@.len() > 0 && column_peak(
                layer.bins@,
                col,
                l.plot_w as int,
            ) > 0 ==> bar_height.ensures(
                (column_peak(layer.bins@, col, l.plot_w as int), max, l.usable_h, opts.log_scale),
                #[trigger] row@[col],
            ),
        forall|x: int, y: int|
            0 <= x < l.width && 0 <= y < l.height ==> #[trigger] final(img).pixel(x, y)
                == layer_pixel((layer.bins@, layer.color), *l, row@, old(img).pixel(x, y), x, y),
{
    let ghost before = *img;
    let ghost lv: LayerView = (layer.bins@, layer.color);
    let n = layer.bins.len();
    let ghost mut row: Seq<usize> = Seq::empty();
    let mut col: usize = 0;
    while col < l.plot_w
        invariant
            before.wf(),
            before.spec_width() == l.width,
            before.spec_height() == l.height,
            img.wf(),
            img.spec_width() == l.width,
            img.spec_height() == l.height,
            *l == spec_plot_layout(*opts),
            l.x0 < l.x1 <= l.width,
            l.plot_w == l.x1 - l.x0,
            l.baseline < l.height,
            l.baseline - l.usable_h == l.y0,
            n == layer.bins@.len(),
            lv == (layer.bins@, layer.color),
            forall|p: u64, m: u64, u: usize, lg: bool| bar_height.requires((p, m, u, lg)),
            0 <= col <= l.plot_w,
            row.len() == col,
            forall|c: int|
                0 <= c < col && n > 0 && column_peak(layer.bins@, c, l.plot_w as int) > 0
                    ==> bar_height.ensures(
                    (column_peak(layer.bins@, c, l.plot_w as int), max, l.usable_h, opts.log_scale),
                    #[trigger] row[c],
                ),
            forall|x: int, y: int|
                0 <= x < l.width && 0 <= y < l.height ==> #[trigger] img.pixel(x, y) == if l.x0
                    <= x < l.x0 + col {
                    layer_pixel(lv, *l, row, before.pixel(x, y), x, y)
                } else {
                    before.pixel(x, y)
                },
        decreases l.plot_w - col,
    {
        let mut h: usize = 0;
        let ghost old_img = *img;
        let x = l.x0 + col;
        if n > 0 {
            let (lo, hi) = column_bin_range(col, n, l.plot_w);
            let peak = max_in_range(layer.bins, lo, hi);
            assert(peak == column_peak(layer.bins@, col as int, l.plot_w as int));
            if peak > 0 {
                h = bar_height(peak, max, l.usable_h, opts.log_scale);
                let bh = if h < l.usable_h {
                    h
                } else {
                    l.usable_h
                };
                if bh > 0 {
                    draw_bar(img, x, l.baseline - bh, l.baseline, layer.color);
                }
            }
        }
        proof {
            let new_row = row.push(h);
            assert forall|x2: int, y: int|
                0 <= x2 < l.width && 0 <= y < l.height implies #[trigger] img.pixel(x2, y) == if l.x0
                    <= x2 < l.x0 + col + 1 {
                    layer_pixel(lv, *l, new_row, before.pixel(x2, y), x2, y)
                } else {
                    before.pixel(x2, y)
                } by {
                assert(old_img.pixel(x2, y) == if l.x0 <= x2 < l.x0 + col {
                    layer_pixel(lv, *l, row, before.pixel(x2, y), x2, y)
                } else {
                    before.pixel(x2, y)
                });
                if l.x0 <= x2 < l.x0 + col {
                    assert(new_row[x2 - l.x0] == row[x2 - l.x0]);
                }
            }
            assert forall|c: int|
                0 <= c < col + 1 && n > 0 && column_peak(layer.bins@, c, l.plot_w as int) > 0
                    implies bar_height.ensures(
                    (column_peak(layer.bins@, c, l.plot_w as int), max, l.usable_h, opts.log_scale),
                    #[trigger] new_row[c],
                ) by {
                if c < col {
                    assert(new_row[c] == row[c]);
                }
            }
            row = new_row;
        }
        col = col + 1;
    }
    proof {
        assert forall|x: int, y: int|
            0 <= x < l.width && 0 <= y < l.height implies #[trigger] img.pixel(x, y)
            == layer_pixel(lv, *l, row, before.pixel(x, y), x, y) by {
            if !(l.x0 <= x < l.x0 + l.plot_w) {
                assert(!in_bar(lv.0, *l, row[x - l.x0] as int, x, y));
            }
        }
    }
    Ghost(row)
}

/// `heights` holds one bar height per layer and slot, and wherever a bar
/// is drawn its height is one that `bar_height` gives for the slot's peak
/// count, the shared maximum, the rows available and the log-scale flag.
pub open spec fn heights_asked<F: Fn(u64, u64, usize, bool) -> usize>(
    layers: Seq<LayerView>,
    opts: HistogramPlotOptions,
    bar_height: F,
    heights: Seq<Seq<usize>>,
) -> bool {
    let l = spec_plot_layout(opts);
    &&& heights.len() == layers.len()
    &&& forall|k: int| 0 <= k < heights.len() ==> #[trigger] heights[k].len() == l.plot_w
    &&& draws_bars(layers, opts) ==> forall|k: int, col: int|
        0 <= k < layers.len() && 0 <= col < l.plot_w && layers[k].0.len() > 0 && column_peak(
            layers[k].0,
            col,
            l.plot_w as int,
        ) > 0 ==> bar_height.ensures(
            (column_peak(layers[k].0, col, l.plot_w as int), layers_max(layers), l.usable_h, opts.log_scale),
            #[trigger] heights[k][col],
        )
}

/// `img` is the chart of `layers` drawn with `opts` and bar heights
/// `heights`.
pub open spec fn is_chart(img: Image<Srgba8>, layers: Seq<LayerView>, opts: HistogramPlotOptions, heights: Seq<Seq<usize>>) -> bool {
    let l = spec_plot_layout(opts);
    &&& img.wf()
    &&& img.spec_width() == l.width
    &&& img.spec_height() == l.height
    &&& forall|x: int, y: int|
        0 <= x < l.width && 0 <= y < l.height ==> #[trigger] img.pixel(x, y) == histogram_pixel(
            layers,
            opts,
            heights,
            x,
            y,
        )
}

/// Render any number of histogram layers into one image.
///
/// All layers share the chart frame and one y-scale: the largest count over
/// every bin of every layer. Each bar slot pools its run of bins by their
/// maximum, so spikes survive when slots are fewer than bins. Layers are
/// blended in order, the last on top. The height of each drawn bar is what
/// `bar_height` gives for the slot's peak count, the shared maximum, the
/// rows available and the log-scale flag; a bar taller than the available
/// rows is clipped to them.
pub fn render_histogram_layers<F: Fn(u64, u64, usize, bool) -> usize>(
    layers: &[HistogramLayer],
    opts: &HistogramPlotOptions,
    bar_height: F,
) -> (img: Image<Srgba8>)
    requires
        forall|p: u64, m: u64, u: usize, lg: bool| bar_height.requires((p, m, u, lg)),
        spec_plot_layout(*opts).width * spec_plot_layout(*opts).height <= usize::MAX,
    ensures
        img.wf(),
        img.spec_width() == spec_plot_layout(*opts).width,
        img.spec_height() == spec_plot_layout(*opts).height,
        exists|heights: Seq<Seq<usize>>|
            #[trigger] heights_asked(layers_view(layers), *opts, bar_height, heights)
                && is_chart(img, layers_view(layers), *opts, heights),
{
    let l = plot_layout(opts);
    let mut img = draw_frame(opts, &l);
    let ghost view = layers_view(layers);
    let ghost mut heights: Seq<Seq<usize>> = Seq::new(
        layers@.len(),
        |k: int| Seq::new(l.plot_w as nat, |c: int| 0usize),
    );
    if layers.len() == 0 {
        proof {
            assert(!draws_bars(view, *opts));
            assert(heights_asked(view, *opts, bar_height, heights));
            assert(is_chart(img, view, *opts, heights));
        }
        return img;
    }
    let max = max_bin_count(layers);
    if max == 0 || l.usable_h == 0 {
        proof {
            assert(!draws_bars(view, *opts));
            assert forall|i: int| 0 <= i < heights.len() implies #[trigger] heights[i].len()
                == l.plot_w by {}
            assert(heights_asked(view, *opts, bar_height, heights));
            assert(is_chart(img, view, *opts, heights));
        }
        return img;
    }
    proof {
        heights = Seq::empty();
    }
    let mut k: usize = 0;
    while k < layers.len()
        invariant
            l == spec_plot_layout(*opts),
            1 <= l.plot_w,
            l.x0 < l.x1 <= l.width,
            l.plot_w == l.x1 - l.x0,
            l.baseline < l.height,
            l.baseline - l.usable_h == l.y0,
            img.wf(),
            img.spec_width() == l.width,
            img.spec_height() == l.height,
            view == layers_view(layers),
            max == layers_max(view),
            forall|p: u64, m: u64, u: usize, lg: bool| bar_height.requires((p, m, u, lg)),
            0 <= k <= layers@.len(),
            heights.len() == k,
            forall|i: int| 0 <= i < heights.len() ==> #[trigger] heights[i].len() == l.plot_w,
            forall|i: int, col: int|
                0 <= i < k && 0 <= col < l.plot_w && layers@[i].bins@.len() > 0 && column_peak(
                    layers@[i].bins@,
                    col,
                    l.plot_w as int,
                ) > 0 ==> bar_height.ensures(
                    (column_peak(layers@[i].bins@, col, l.plot_w as int), max, l.usable_h, opts.log_scale),
                    #[trigger] heights[i][col],
                ),
            forall|x: int, y: int|
                0 <= x < l.width && 0 <= y < l.height ==> #[trigger] img.pixel(x, y)
                    == chart_pixel(view, *opts, heights, k as int, x, y),
        decreases layers@.len() - k,
    {
        let ghost before = img;
        let row = draw_layer(&mut img, &layers[k], opts, &l, max, &bar_height);
        proof {
            let new_heights = heights.push(row@);
            assert(view[k as int] == (layers@[k as int].bins@, layers@[k as int].color));
            assert forall|x: int, y: int|
                0 <= x < l.width && 0 <= y < l.height implies #[trigger] img.pixel(x, y)
                == chart_pixel(view, *opts, new_heights, k + 1, x, y) by {
                lemma_chart_pixel_prefix(view, *opts, heights, row@, k as int, x, y);
                assert(before.pixel(x, y) == chart_pixel(view, *opts, heights, k as int, x, y));
                assert(new_heights[k as int] == row@);
            }
            assert forall|i: int, col: int|
                0 <= i < k + 1 && 0 <= col < l.plot_w && layers@[i].bins@.len() > 0
                    && column_peak(layers@[i].bins@, col, l.plot_w as int) > 0 implies bar_height.ensures(
                    (column_peak(layers@[i].bins@, col, l.plot_w as int), max, l.usable_h, opts.log_scale),
                    #[trigger] new_heights[i][col],
                ) by {
                if i < k {
                    assert(new_heights[i] == heights[i]);
                } else {
                    assert(new_heights[i] == row@);
                }
            }
            assert forall|i: int| 0 <= i < new_heights.len() implies #[trigger] new_heights[i].len() == l.plot_w by {
                if i < k {
                    assert(new_heights[i] == heights[i]);
                }
            }
            heights = new_heights;
        }
        k = k + 1;
    }
    proof {
        assert(draws_bars(view, *opts));
        assert forall|i: int, col: int|
            0 <= i < view.len() && 0 <= col < l.plot_w && view[i].0.len() > 0 && column_peak(
                view[i].0,
                col,
                l.plot_w as int,
            ) > 0 implies bar_height.ensures(
            (column_peak(view[i].0, col, l.plot_w as int), layers_max(view), l.usable_h, opts.log_scale),
            #[trigger] heights[i][col],
        ) by {
            assert(view[i].0 == layers@[i].bins@);
        }
        assert(heights_asked(view, *opts, bar_height, heights));
        assert(is_chart(img, view, *opts, heights));
    }
    img
}

/// The plot options of a single-histogram chart: its frame settings without
/// the bar colour.
pub open spec fn plot_options_of(opts: HistogramRenderOptions) -> HistogramPlotOptions {
    HistogramPlotOptions {
        width: opts.width,
        height: opts.height,
        padding: opts.padding,
        background: opts.background,
        axis: opts.axis,
        log_scale: opts.log_scale,
    }
}

/// Render the bin counts of one `fovea` histogram as a chart with a single
/// layer in the bar colour of `opts`, as [`render_histogram_layers`] draws
/// it with the frame settings of `opts`.
pub fn render_histogram<S, V, F: Fn(u64, u64, usize, bool) -> usize>(
    h: &fovea::analyze::histogram::Histogram<S, V>,
    opts: &HistogramRenderOptions,
    bar_height: F,
) -> (img: Image<Srgba8>)
    requires
        forall|p: u64, m: u64, u: usize, lg: bool| bar_height.requires((p, m, u, lg)),
        spec_plot_layout(plot_options_of(*opts)).width * spec_plot_layout(
            plot_options_of(*opts),
        ).height <= usize::MAX,
    ensures
        img.wf(),
        img.spec_width() == spec_plot_layout(plot_options_of(*opts)).width,
        img.spec_height() == spec_plot_layout(plot_options_of(*opts)).height,
        exists|bins: Seq<u64>, heights: Seq<Seq<usize>>|
            #[trigger] heights_asked(seq![(bins, opts.bar)], plot_options_of(*opts), bar_height, heights)
                && is_chart(img, seq![(bins, opts.bar)], plot_options_of(*opts), heights),
{
    let (plot, bar) = opts.split();
    assert(plot == plot_options_of(*opts));
    let layer = HistogramLayer::from_histogram(h, bar);
    let mut layers: Vec<HistogramLayer> = Vec::new();
    layers.push(layer);
    let slice = layers.as_slice();
    let img = render_histogram_layers(slice, &plot, bar_height);
    proof {
        let view = layers_view(slice);
        assert(view =~= seq![(layer.bins@, opts.bar)]);
        let heights = choose|heights: Seq<Seq<usize>>|
            #[trigger] heights_asked(view, plot, bar_height, heights) && is_chart(
                img,
                view,
                plot,
                heights,
            );
        assert(heights_asked(seq![(layer.bins@, opts.bar)], plot_options_of(*opts), bar_height, heights));
    }
    img
}

/// Bars only ever cover rows `y0..baseline` of plot columns `x0..x1`:
/// elsewhere every layer leaves the frame as it is.
proof fn lemma_chart_pixel_outside_bars(layers: Seq<LayerView>, opts: HistogramPlotOptions, heights: Seq<Seq<usize>>, k: int, x: int, y: int)
    requires
        spec_plot_layout(opts).baseline - spec_plot_layout(opts).usable_h == spec_plot_layout(
            opts,
        ).y0,
        !(spec_plot_layout(opts).x0 <= x < spec_plot_layout(opts).x1 && spec_plot_layout(opts).y0
            <= y < spec_plot_layout(opts).baseline),
    ensures
        chart_pixel(layers, opts, heights, k, x, y) == frame_pixel(opts, x, y),
    decreases k,
{
    if k > 0 {
        lemma_chart_pixel_outside_bars(layers, opts, heights, k - 1, x, y);
    }
}

/// Law: outside the plot area, and in the padding around it, a chart shows
/// its background; along the baseline of the plot area it shows the axis
/// colour, whatever the layers.
pub proof fn lemma_chart_frame(layers: Seq<LayerView>, opts: HistogramPlotOptions, heights: Seq<Seq<usize>>, x: int, y: int)
    requires
        0 <= x < spec_plot_layout(opts).width,
        0 <= y < spec_plot_layout(opts).height,
    ensures
        y == spec_plot_layout(opts).baseline && spec_plot_layout(opts).x0 <= x < spec_plot_layout(
            opts,
        ).x1 ==> histogram_pixel(layers, opts, heights, x, y) == opts.axis,
        !(spec_plot_layout(opts).x0 <= x < spec_plot_layout(opts).x1 && spec_plot_layout(opts).y0
            <= y <= spec_plot_layout(opts).baseline) ==> histogram_pixel(
            layers,
            opts,
            heights,
            x,
            y,
        ) == opts.background,
{
    let l = plot_layout_facts(opts);
    if !(l.x0 <= x < l.x1 && l.y0 <= y < l.baseline) {
        lemma_chart_pixel_outside_bars(layers, opts, heights, layers.len() as int, x, y);
    }
}

/// Shape of the layout of any options.
proof fn plot_layout_facts(opts: HistogramPlotOptions) -> (l: PlotLayout)
    ensures
        l == spec_plot_layout(opts),
        1 <= l.plot_w,
        1 <= l.plot_h,
        l.x0 < l.x1 <= l.width,
        l.y0 < l.y1 <= l.height,
        l.plot_w == l.x1 - l.x0,
        l.baseline == l.y1 - 1,
        l.usable_h == l.plot_h - 1,
        l.baseline - l.usable_h == l.y0,
{
    spec_plot_layout(opts)
}

/// Law: a bar slot whose pooled bins are all zero, or a layer without bins,
/// leaves every pixel of its column as the layers below drew it.
pub proof fn lemma_zero_slot_draws_nothing(layer: LayerView, opts: HistogramPlotOptions, row: Seq<usize>, prev: Srgba8, x: int, y: int)
    requires
        layer.0.len() == 0 || column_peak(
            layer.0,
            x - spec_plot_layout(opts).x0,
            spec_plot_layout(opts).plot_w as int,
        ) == 0,
    ensures
        layer_pixel(layer, spec_plot_layout(opts), row, prev, x, y) == prev,
{
}

/// Law: a fully opaque layer hides what lies under its bars, and a fully
/// transparent one changes nothing.
pub proof fn lemma_layer_alpha_extremes(layer: LayerView, l: PlotLayout, row: Seq<usize>, prev: Srgba8, x: int, y: int)
    ensures
        layer.1.a == 0 ==> layer_pixel(layer, l, row, prev, x, y) == prev,
        layer.1.a == 255 && in_bar(layer.0, l, row[x - l.x0] as int, x, y) ==> layer_pixel(
            layer,
            l,
            row,
            prev,
            x,
            y,
        ) == layer.1,
{
}

/// Law: a chart without layers, or whose bins are all zero, is the frame
/// alone: background with the axis along the baseline.
pub proof fn lemma_no_bars_frame_only(layers: Seq<LayerView>, opts: HistogramPlotOptions, heights: Seq<Seq<usize>>, x: int, y: int)
    requires
        layers.len() == 0 || layers_max(layers) == 0,
    ensures
        histogram_pixel(layers, opts, heights, x, y) == frame_pixel(opts, x, y),
{
}

/// Law: a bar slot's peak is at least every count it pools, so a spike in
/// any pooled bin reaches the bar.
pub proof fn lemma_column_peak_covers(bins: Seq<u64>, col: int, plot_w: int, i: int)
    requires
        column_lo(col, bins.len() as int, plot_w) <= i < column_hi(col, bins.len() as int, plot_w),
        0 <= column_lo(col, bins.len() as int, plot_w),
    ensures
        bins[i] <= column_peak(bins, col, plot_w),
{
    let lo = column_lo(col, bins.len() as int, plot_w);
    let hi = column_hi(col, bins.len() as int, plot_w);
    let run = bins.subrange(lo, hi);
    lemma_seq_max(run);
    assert(run[i - lo] == bins[i]);
}

/// Law: the shared y-scale is at least every count of every layer.
pub proof fn lemma_layers_max_covers(layers: Seq<LayerView>, k: int, i: int)
    requires
        0 <= k < layers.len(),
        0 <= i < layers[k].0.len(),
    ensures
        layers[k].0[i] <= layers_max(layers),
    decreases layers.len(),
{
    if k == layers.len() - 1 {
        lemma_seq_max(layers[k].0);
    } else {
        lemma_layers_max_covers(layers.drop_last(), k, i);
        assert(layers.drop_last()[k] == layers[k]);
    }
}

} // verus!

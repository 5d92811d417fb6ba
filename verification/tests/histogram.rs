//! Histogram bar charts.

use fovea::analyze::histogram::{Histogram, NaturalBins, histogram};
use fovea::image::{Image as FoveaImage, ImageViewMut};
use fovea::pixel::Mono8 as FoveaMono8;
use fovea_display::{
    HistogramLayer, HistogramPlotOptions, HistogramRenderOptions, Image, Srgba8, blend_over,
    max_bin_count, plot_layout, render_histogram, render_histogram_layers,
};

/// Bar height of a slot, in floating point as the debug windows compute it:
/// its peak over the shared maximum, both taken as is or as `ln(1 + count)`,
/// times the rows available, rounded.
fn bar_height(peak: u64, max: u64, usable_h: usize, log_scale: bool) -> usize {
    let t = |c: u64| -> f64 {
        if log_scale {
            (1.0 + c as f64).ln()
        } else {
            c as f64
        }
    };
    ((t(peak) / t(max)) * usable_h as f64).round() as usize
}

fn build_hist() -> Histogram<NaturalBins, std::num::Saturating<u8>> {
    // 4×4 image with one pixel at value 0 and the rest at 255.
    let mut img: FoveaImage<FoveaMono8> = FoveaImage::fill(4, 4, FoveaMono8::new(255));
    *img.pixel_at_mut(0, 0) = FoveaMono8::new(0);
    histogram(&img, &NaturalBins).unwrap()
}

// ── Single-histogram charts ─────────────────────────────────────────────────

#[test]
fn render_default_size_matches_options() {
    let h = build_hist();
    let opts = HistogramRenderOptions::default();
    let img = render_histogram(&h, &opts, bar_height);
    assert_eq!(img.width(), opts.width as usize);
    assert_eq!(img.height(), opts.height as usize);
}

#[test]
fn render_zero_size_padded_does_not_panic() {
    let h = build_hist();
    let opts = HistogramRenderOptions {
        width: 1,
        height: 1,
        padding: 0,
        ..HistogramRenderOptions::default()
    };
    let img = render_histogram(&h, &opts, bar_height);
    assert_eq!(img.width(), 1);
    assert_eq!(img.height(), 1);
}

#[test]
fn render_paints_background_outside_bars() {
    let h = build_hist();
    let opts = HistogramRenderOptions::default();
    let img = render_histogram(&h, &opts, bar_height);
    assert_eq!(img.pixel_at(0, 0), opts.background);
}

#[test]
fn render_log_scale_runs() {
    let h = build_hist();
    let opts = HistogramRenderOptions {
        log_scale: true,
        ..HistogramRenderOptions::default()
    };
    let _ = render_histogram(&h, &opts, bar_height);
}

#[test]
fn render_empty_bins_is_safe() {
    let h = build_hist();
    let opts = HistogramRenderOptions {
        width: 4,
        height: 4,
        padding: 2,
        ..HistogramRenderOptions::default()
    };
    let img = render_histogram(&h, &opts, bar_height);
    assert_eq!(img.width(), 4);
    assert_eq!(img.height(), 4);
}

// ── Layered charts ──────────────────────────────────────────────────────────

#[test]
fn layered_no_layers_yields_background_and_axis_only() {
    let opts = HistogramPlotOptions::default();
    let img = render_histogram_layers(&[], &opts, bar_height);
    assert_eq!(img.width(), opts.width as usize);
    assert_eq!(img.height(), opts.height as usize);
    assert_eq!(img.pixel_at(0, 0), opts.background);
    let l = plot_layout(&opts);
    for y in 0..img.height() {
        for x in 0..img.width() {
            let expected = if y == l.baseline && l.x0 <= x && x < l.x1 {
                opts.axis
            } else {
                opts.background
            };
            assert_eq!(img.pixel_at(x, y), expected);
        }
    }
}

#[test]
fn layered_two_translucent_layers_blend() {
    let h = build_hist();
    let opts = HistogramPlotOptions::default();
    let layers = [
        HistogramLayer::from_histogram(&h, Srgba8::new(255, 0, 0, 128)),
        HistogramLayer::from_histogram(&h, Srgba8::new(0, 0, 255, 128)),
    ];
    let img = render_histogram_layers(&layers, &opts, bar_height);
    assert_eq!(img.width(), opts.width as usize);
    assert_eq!(img.height(), opts.height as usize);
}

#[test]
fn layered_small_chart_exact_pixels() {
    // 6×6 chart, padding 1: plot columns 1..5, rows 1..5, axis on row 4,
    // three rows for bars. Bins [1, 3] pool onto four slots as 1,1,3,3.
    let bg = Srgba8::new(0, 0, 0, 255);
    let axis = Srgba8::new(9, 9, 9, 255);
    let red = Srgba8::new(200, 0, 0, 255);
    let opts = HistogramPlotOptions {
        width: 6,
        height: 6,
        padding: 1,
        background: bg,
        axis,
        log_scale: false,
    };
    let bins = [1u64, 3];
    let layers = [HistogramLayer::new(&bins, red)];
    let img = render_histogram_layers(&layers, &opts, bar_height);
    // heights: round(1/3 · 3) = 1 for slots 0, 1; 3 for slots 2, 3.
    let mut expected = vec![vec![bg; 6]; 6];
    for x in 1..5 {
        expected[4][x] = axis;
    }
    for x in [1usize, 2] {
        expected[3][x] = red;
    }
    for x in [3usize, 4] {
        for y in 1..4 {
            expected[y][x] = red;
        }
    }
    for y in 0..6 {
        for x in 0..6 {
            assert_eq!(img.pixel_at(x, y), expected[y][x], "pixel ({x}, {y})");
        }
    }
}

#[test]
fn layered_translucent_layer_blends_over_lower_one() {
    let bg = Srgba8::new(0, 0, 0, 255);
    let opts = HistogramPlotOptions {
        width: 3,
        height: 4,
        padding: 0,
        background: bg,
        axis: Srgba8::new(1, 1, 1, 255),
        log_scale: false,
    };
    let bins = [5u64];
    let lower = Srgba8::new(0, 0, 255, 255);
    let upper = Srgba8::new(255, 0, 0, 128);
    let layers = [HistogramLayer::new(&bins, lower), HistogramLayer::new(&bins, upper)];
    let img = render_histogram_layers(&layers, &opts, bar_height);
    // Every column is a full bar over rows 0..3; the axis is row 3.
    let mixed = blend_over(upper, lower);
    for x in 0..3 {
        for y in 0..3 {
            assert_eq!(img.pixel_at(x, y), mixed);
        }
    }
    assert_eq!(mixed, Srgba8::new(128, 0, 127, 255));
}

#[test]
fn layered_all_zero_bins_draw_frame_only() {
    let opts = HistogramPlotOptions::default();
    let bins = [0u64; 10];
    let layers = [HistogramLayer::new(&bins, Srgba8::new(255, 255, 255, 255))];
    assert_eq!(max_bin_count(&layers), 0);
    let with_bins = render_histogram_layers(&layers, &opts, bar_height);
    let without = render_histogram_layers(&[], &opts, bar_height);
    assert_eq!(with_bins.as_slice(), without.as_slice());
}

#[test]
fn layered_bars_are_clipped_to_the_plot() {
    let opts = HistogramPlotOptions {
        width: 2,
        height: 3,
        padding: 0,
        background: Srgba8::new(0, 0, 0, 255),
        axis: Srgba8::new(1, 1, 1, 255),
        log_scale: false,
    };
    let bins = [1u64, 1];
    let layers = [HistogramLayer::new(&bins, Srgba8::new(7, 7, 7, 255))];
    // A height function that asks for far more rows than there are.
    let img = render_histogram_layers(&layers, &opts, |_, _, _, _| 1000);
    for x in 0..2 {
        assert_eq!(img.pixel_at(x, 0), Srgba8::new(7, 7, 7, 255));
        assert_eq!(img.pixel_at(x, 1), Srgba8::new(7, 7, 7, 255));
        assert_eq!(img.pixel_at(x, 2), Srgba8::new(1, 1, 1, 255));
    }
}

#[test]
fn max_bin_count_is_shared_scale() {
    let a = [1u64, 9, 2];
    let b: [u64; 0] = [];
    let c = [4u64, 12];
    let layers = [
        HistogramLayer::new(&a, Srgba8::new(0, 0, 0, 0)),
        HistogramLayer::new(&b, Srgba8::new(0, 0, 0, 0)),
        HistogramLayer::new(&c, Srgba8::new(0, 0, 0, 0)),
    ];
    assert_eq!(max_bin_count(&layers), 12);
}

#[test]
fn plot_layout_of_default_options() {
    let l = plot_layout(&HistogramPlotOptions::default());
    assert_eq!((l.width, l.height, l.pad), (512, 256, 8));
    assert_eq!((l.x0, l.x1, l.y0, l.y1), (8, 504, 8, 248));
    assert_eq!((l.plot_w, l.plot_h, l.baseline, l.usable_h), (496, 240, 247, 239));
}

#[test]
fn split_keeps_frame_options_and_bar() {
    let opts = HistogramRenderOptions::default();
    let (plot, bar) = opts.split();
    assert_eq!(plot.width, 512);
    assert_eq!(plot.height, 256);
    assert_eq!(plot.padding, 8);
    assert_eq!(plot.background, opts.background);
    assert_eq!(plot.axis, opts.axis);
    assert!(!plot.log_scale);
    assert_eq!(bar, Srgba8::new(180, 200, 230, 255));
}

// ── Compositing ─────────────────────────────────────────────────────────────

#[test]
fn blend_over_zero_alpha_is_passthrough() {
    let dst = Srgba8::new(10, 20, 30, 200);
    let src = Srgba8::new(255, 0, 0, 0);
    assert_eq!(blend_over(src, dst), dst);
}

#[test]
fn blend_over_full_alpha_replaces_destination() {
    let dst = Srgba8::new(10, 20, 30, 200);
    let src = Srgba8::new(255, 0, 0, 255);
    assert_eq!(blend_over(src, dst), src);
}

#[test]
fn blend_over_half_alpha_mixes_components() {
    let dst = Srgba8::new(0, 0, 0, 255);
    let src = Srgba8::new(255, 0, 0, 128);
    let out = blend_over(src, dst);
    assert!(out.r >= 127 && out.r <= 129, "r = {}", out.r);
    assert_eq!(out.g, 0);
    assert_eq!(out.b, 0);
    assert_eq!(out.a, 255);
}

#[test]
fn blend_over_exact_values() {
    // r: (200·100 + 50·155 + 127) / 255 = 109; a: 100 + (0·155 + 127)/255 = 100
    let out = blend_over(Srgba8::new(200, 50, 0, 100), Srgba8::new(50, 50, 255, 0));
    assert_eq!(out, Srgba8::new(109, 50, 155, 100));
}

#[test]
fn layer_from_histogram_reads_the_bins() {
    let h = build_hist();
    let layer = HistogramLayer::from_histogram(&h, Srgba8::new(1, 2, 3, 4));
    assert_eq!(layer.bins.len(), 256);
    assert_eq!(layer.bins[0], 1);
    assert_eq!(layer.bins[255], 15);
    assert_eq!(layer.bins.iter().sum::<u64>(), 16);
    assert_eq!(layer.color, Srgba8::new(1, 2, 3, 4));
}

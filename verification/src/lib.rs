//! Display mappings for fovea images: named strategies that turn pixels into
//! display-ready sRGB, framebuffer packing and scaling, histogram charts,
//! and the decisions of the debug-window event loop.

mod sealed;

pub mod pixel;
pub mod strategy;

pub use pixel::{
    Bgr8, Bgra8, DisplayPixel, Mono8, Rgb8, Rgba8, Srgb8, SrgbMono8, SrgbMonoA8, Srgba8,
    TextureFormat,
};
pub use strategy::{DisplayStrategy, Identity, LinearToDisplay};
pub mod image;
pub use image::Image;
pub mod framebuffer;
pub use framebuffer::{BlitPlan, Framebuffer, blit_framebuffer, plan_blit, scale_blit};
pub mod histogram;
pub use histogram::{
    HistogramLayer, HistogramPlotOptions, HistogramRenderOptions, PlotLayout, blend_over,
    max_bin_count, plot_layout, render_histogram, render_histogram_layers,
};
pub mod window;
pub use window::{
    DebugDisplay, DisplayEvent, Notifier, Received, WaitStep, WindowCommand, WindowRegistry, wait_key_step,
};

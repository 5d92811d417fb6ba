# fovea_display

Display mappings for fovea images, verified with Verus.

- `src/` — the verified library: display pixels and the `0x00RRGGBB`
  framebuffer packing, texture format descriptors, display strategies
  (`Identity`, `LinearToDisplay` for 8-bit linear pixels), a plain raster,
  framebuffers and nearest-neighbour blitting, histogram bar charts with
  alpha blending, and the decisions of the debug-window event loop (waiting
  for keys, open windows by title, waking the loop).
- `app/` — platform code around it: winit/softbuffer debug windows, the
  floating-point strategies (`AutoContrast`, `FixedRange`, linear float
  pixels), bar-height scaling, GPU texture metadata for fovea images, and
  conversions from fovea pixels and images.
- `tests/` — tests of the library.

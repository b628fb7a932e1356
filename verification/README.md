# click_through

A transparent, always-on-top desktop pet window whose transparent pixels let
clicks through, with drag, a click reaction and a tray menu to switch between
three ways of doing the click-through (native, cursor polling, a separate
hitbox window).

- `src/` is the verified library (Verus):
  - `pixmap.rs`: the rendered frame (a `tiny_skia` pixmap, through `resvg`) and
    the alpha lookup that decides whether a point is hit;
  - `raster.rs`: BGRA swizzle, strips for X11 `PutImage`, the input-shape mask
    (with the proof that it covers exactly the visible pixels, in y-x banded
    order) and the cache of the shape sent last;
  - `controller.rs`: modes, hit-testing switches, presses, clicks, drags, the
    menu and frame timing, as state transitions with laws about them;
  - `icon.rs`: the tray icon bitmap;
  - `layered.rs`: the Windows layered-window bitmap decisions.
- `app/` is the program: winit windows, resvg rendering, the tray menu and the
  per-platform presenters (X11, Windows, macOS), which carry out what the
  controller answers.
- `tests/` runs the library on concrete inputs.

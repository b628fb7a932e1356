//! Decision logic of a transparent, always-on-top desktop pet window with
//! pixel-accurate click-through: hit testing against the rendered frame,
//! the input-shape mask and image strips sent to an X11 server, the pixel
//! swizzle for layered windows, the tray icon bitmap, and the event-loop
//! controller that decides what the window layer does next.

pub mod pixmap;
pub mod raster;
pub mod controller;
pub mod icon;
pub mod layered;

//! A verified graphics output stack for a bare-metal text console.
//!
//! The crate turns a raw, stride-addressed pixel memory region into a
//! character console: a format-aware pixel writer over the region, a
//! fixed-size bitmap font rasterizer, and a character-grid console with
//! cursor tracking, line wrap policy and scroll-on-overflow.

pub mod common;
pub mod rect;
pub mod frame_buffer;
pub mod screen;
pub mod font;
pub mod console;

pub use common::PixelColor;
pub use common::XY;

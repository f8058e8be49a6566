//! The frame buffer descriptor and the format-aware pixel writer.
//!
//! A frame buffer is a stride-addressed byte region where each pixel owns a
//! 4-byte slot: three color channel bytes in a layout-specific order plus one
//! reserved byte. The writer computes the slot of a pixel from its position
//! and writes the three channel bytes in place; nothing else is touched.

use vstd::arithmetic::div_mod::lemma_fundamental_div_mod;
use vstd::arithmetic::div_mod::lemma_fundamental_div_mod_converse;
use vstd::arithmetic::mul::lemma_mul_is_commutative;
use vstd::prelude::*;

use crate::common::PixelColor;
use crate::common::XY;

verus! {

/// Byte ordering of the color channels within one 32-bit pixel slot.
#[derive(Eq, PartialEq, Clone, Copy, Debug, Structural)]
pub enum PixelFormat {
    /// Each pixel is 32-bit long, with 24-bit RGB, and the last byte is reserved.
    Rgb,
    /// Each pixel is 32-bit long, with 24-bit BGR, and the last byte is reserved.
    Bgr,
    /// Custom pixel format, described by an associated bitmask; not drawable here.
    Bitmask,
    /// The graphics mode does not support drawing directly to the frame buffer.
    BltOnly,
}

/// Byte offset of the first byte of the pixel slot at `(x, y)` in a region
/// whose scanlines are `stride` pixels long.
pub open spec fn byte_off(stride: int, x: int, y: int) -> int {
    4 * (y * stride + x)
}

/// The value of channel slot `k` (0, 1 or 2) of a pixel slot showing color
/// `c` under format `fmt`. Formats that do not support direct drawing never
/// reach this: no writer can be constructed for them.
pub open spec fn channel_byte(fmt: PixelFormat, c: PixelColor, k: int) -> u8 {
    match fmt {
        PixelFormat::Bgr => if k == 0 {
            c.b
        } else if k == 1 {
            c.g
        } else {
            c.r
        },
        _ => if k == 0 {
            c.r
        } else if k == 1 {
            c.g
        } else {
            c.b
        },
    }
}

/// The color shown by the pixel at `(x, y)` of the region.
pub open spec fn pixel_color_at(
    bytes: Seq<u8>,
    stride: int,
    fmt: PixelFormat,
    x: int,
    y: int,
) -> PixelColor {
    match fmt {
        PixelFormat::Bgr => PixelColor {
            r: bytes[byte_off(stride, x, y) + 2],
            g: bytes[byte_off(stride, x, y) + 1],
            b: bytes[byte_off(stride, x, y)],
        },
        _ => PixelColor {
            r: bytes[byte_off(stride, x, y)],
            g: bytes[byte_off(stride, x, y) + 1],
            b: bytes[byte_off(stride, x, y) + 2],
        },
    }
}

/// Every channel byte of a pixel inside the scanline grid stays inside the
/// region.
pub proof fn lemma_pixel_index(stride: int, h: int, x: int, y: int)
    by (nonlinear_arith)
    requires
        0 <= x < stride,
        0 <= y < h,
    ensures
        0 <= y * stride + x,
        4 * (y * stride + x) + 4 <= 4 * stride * h,
{
}

/// A channel byte's index decomposes back into its pixel coordinates and
/// channel slot.
pub proof fn lemma_byte_index_parts(stride: int, x: int, y: int, k: int)
    requires
        0 <= x < stride,
        0 <= y,
        0 <= k < 4,
    ensures
        (byte_off(stride, x, y) + k) / 4 == y * stride + x,
        (byte_off(stride, x, y) + k) % 4 == k,
        ((byte_off(stride, x, y) + k) / 4) % stride == x,
        ((byte_off(stride, x, y) + k) / 4) / stride == y,
{
    lemma_fundamental_div_mod_converse(4 * (y * stride + x) + k, 4, y * stride + x, k);
    lemma_fundamental_div_mod_converse(y * stride + x, stride, y, x);
}

/// Any byte index is the channel byte, at slot `i % 4`, of the pixel whose
/// coordinates it decomposes to.
pub proof fn lemma_byte_index_recompose(stride: int, i: int)
    requires
        0 < stride,
        0 <= i,
    ensures
        i == byte_off(stride, (i / 4) % stride, (i / 4) / stride) + i % 4,
{
    lemma_fundamental_div_mod(i, 4);
    lemma_fundamental_div_mod(i / 4, stride);
    lemma_mul_is_commutative(stride, (i / 4) / stride);
}

/// Immutable description of the drawing region: the region's bytes, the
/// visible resolution, the pixel layout, and the scanline stride in pixels
/// (which may exceed the horizontal resolution). It stands for the memory
/// area that the boot collaborator hands over, owned exclusively by this
/// stack for the process lifetime.
pub struct FrameBuffer {
    /// The pixel region itself, one 4-byte slot per scanline pixel.
    pub bytes: Vec<u8>,
    /// (horizontal, vertical) resolution in pixels.
    pub resolution: (usize, usize),
    /// Format of the frame buffer.
    pub pixel_format: PixelFormat,
    /// Number of pixels per scanline.
    pub stride: usize,
}

impl FrameBuffer {
    /// The region is consistent: every scanline holds a whole number of
    /// visible pixels and the byte length covers all scanlines.
    pub open spec fn wf(&self) -> bool {
        &&& self.resolution.0 <= self.stride
        &&& self.bytes@.len() == 4 * self.stride * self.resolution.1
    }

    pub fn width(&self) -> (r: usize)
        ensures
            r == self.resolution.0,
    {
        self.resolution.0
    }

    pub fn height(&self) -> (r: usize)
        ensures
            r == self.resolution.1,
    {
        self.resolution.1
    }
}

/// Wraps a frame buffer and writes single pixels into it, dispatching on the
/// pixel layout chosen once at construction.
pub struct PixelWriter {
    pub frame_buffer: FrameBuffer,
}

impl PixelWriter {
    /// The wrapped region is consistent and its layout is one of the two
    /// drawable ones.
    pub open spec fn wf(&self) -> bool {
        &&& self.frame_buffer.wf()
        &&& self.frame_buffer.pixel_format is Rgb || self.frame_buffer.pixel_format is Bgr
    }

    /// The region bytes.
    pub open spec fn frame(&self) -> Seq<u8> {
        self.frame_buffer.bytes@
    }

    pub open spec fn spec_stride(&self) -> int {
        self.frame_buffer.stride as int
    }

    pub open spec fn fmt(&self) -> PixelFormat {
        self.frame_buffer.pixel_format
    }

    pub open spec fn spec_width(&self) -> int {
        self.frame_buffer.resolution.0 as int
    }

    pub open spec fn spec_height(&self) -> int {
        self.frame_buffer.resolution.1 as int
    }

    /// Two writers agree on everything except the pixel contents.
    pub open spec fn same_config(&self, other: &Self) -> bool {
        &&& self.frame_buffer.resolution == other.frame_buffer.resolution
        &&& self.frame_buffer.stride == other.frame_buffer.stride
        &&& self.frame_buffer.pixel_format == other.frame_buffer.pixel_format
        &&& self.frame().len() == other.frame().len()
    }

    /// Selects the byte-order routine for the descriptor's layout at
    /// construction time. Only the two direct-draw 32-bit layouts are
    /// accepted; asking for any other layout is a construction-time contract
    /// violation, ruled out here rather than checked at draw time.
    pub fn new(frame_buffer: FrameBuffer) -> (w: Self)
        requires
            frame_buffer.wf(),
            frame_buffer.pixel_format is Rgb || frame_buffer.pixel_format is Bgr,
        ensures
            w.wf(),
            w.frame_buffer == frame_buffer,
    {
        Self { frame_buffer }
    }

    fn draw_pixel_rgb(&mut self, off: usize, color: PixelColor)
        requires
            off + 2 < old(self).frame().len(),
        ensures
            final(self).frame_buffer.resolution == old(self).frame_buffer.resolution,
            final(self).frame_buffer.stride == old(self).frame_buffer.stride,
            final(self).frame_buffer.pixel_format == old(self).frame_buffer.pixel_format,
            final(self).frame() == old(self).frame().update(off as int, color.r).update(
                off + 1,
                color.g,
            ).update(off + 2, color.b),
    {
        // reading the length pins the region size to a machine word, which
        // bounds the byte offsets below
        let _n: usize = self.frame_buffer.bytes.len();
        self.frame_buffer.bytes.set(off, color.r);
        self.frame_buffer.bytes.set(off + 1, color.g);
        self.frame_buffer.bytes.set(off + 2, color.b);
    }

    fn draw_pixel_bgr(&mut self, off: usize, color: PixelColor)
        requires
            off + 2 < old(self).frame().len(),
        ensures
            final(self).frame_buffer.resolution == old(self).frame_buffer.resolution,
            final(self).frame_buffer.stride == old(self).frame_buffer.stride,
            final(self).frame_buffer.pixel_format == old(self).frame_buffer.pixel_format,
            final(self).frame() == old(self).frame().update(off as int, color.b).update(
                off + 1,
                color.g,
            ).update(off + 2, color.r),
    {
        // reading the length pins the region size to a machine word, which
        // bounds the byte offsets below
        let _n: usize = self.frame_buffer.bytes.len();
        self.frame_buffer.bytes.set(off, color.b);
        self.frame_buffer.bytes.set(off + 1, color.g);
        self.frame_buffer.bytes.set(off + 2, color.r);
    }

    /// Writes the three channel bytes of the pixel at `pos` and nothing else.
    /// Bounds are the caller's contract: positions outside the resolution are
    /// ruled out here instead of being checked per draw call in the hot path.
    pub fn draw_pixel(&mut self, pos: XY<usize>, color: PixelColor)
        requires
            old(self).wf(),
            pos.x < old(self).spec_width(),
            pos.y < old(self).spec_height(),
        ensures
            final(self).wf(),
            final(self).same_config(old(self)),
            (
            {
                let off = byte_off(old(self).spec_stride(), pos.x as int, pos.y as int);
                final(self).frame() == old(self).frame().update(
                    off,
                    channel_byte(old(self).fmt(), color, 0),
                ).update(off + 1, channel_byte(old(self).fmt(), color, 1)).update(
                    off + 2,
                    channel_byte(old(self).fmt(), color, 2),
                )
            }
            ),
    {
        proof {
            lemma_pixel_index(
                self.frame_buffer.stride as int,
                self.frame_buffer.resolution.1 as int,
                pos.x as int,
                pos.y as int,
            );
        }
        // reading the length pins the region size to a machine word, which
        // bounds the byte offsets below
        let _n: usize = self.frame_buffer.bytes.len();
        let off = (pos.y * self.frame_buffer.stride + pos.x) * 4;
        match self.frame_buffer.pixel_format {
            PixelFormat::Rgb => self.draw_pixel_rgb(off, color),
            _ => self.draw_pixel_bgr(off, color),
        }
    }

    pub fn width(&self) -> (r: usize)
        ensures
            r == self.spec_width(),
    {
        self.frame_buffer.width()
    }

    pub fn height(&self) -> (r: usize)
        ensures
            r == self.spec_height(),
    {
        self.frame_buffer.height()
    }

    /// Reads one byte of the region, for inspection from outside the stack.
    pub fn byte_at(&self, i: usize) -> (b: u8)
        requires
            i < self.frame().len(),
        ensures
            b == self.frame()[i as int],
    {
        self.frame_buffer.bytes[i]
    }
}

} // verus!

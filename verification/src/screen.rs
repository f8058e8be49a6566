//! Rectangle fills over the whole drawing region.

use vstd::prelude::*;

use crate::common::PixelColor;
use crate::common::XY;
use crate::frame_buffer::byte_off;
use crate::frame_buffer::channel_byte;
use crate::frame_buffer::lemma_byte_index_parts;
use crate::frame_buffer::lemma_byte_index_recompose;
use crate::frame_buffer::lemma_pixel_index;
use crate::frame_buffer::pixel_color_at;
use crate::frame_buffer::PixelFormat;
use crate::frame_buffer::PixelWriter;

verus! {

/// Does byte index `i` address one of the three channel bytes of a pixel
/// inside the rectangle `[x0, x0 + rw) x [y0, y0 + rh)`?
pub open spec fn in_rect_bytes(i: int, stride: int, x0: int, y0: int, rw: int, rh: int) -> bool {
    &&& i % 4 < 3
    &&& x0 <= (i / 4) % stride < x0 + rw
    &&& y0 <= (i / 4) / stride < y0 + rh
}

/// The region bytes after every pixel of the rectangle is painted `c`:
/// channel bytes inside the rectangle show `c`, every other byte is kept.
pub open spec fn rect_filled(
    bytes: Seq<u8>,
    stride: int,
    fmt: PixelFormat,
    x0: int,
    y0: int,
    rw: int,
    rh: int,
    c: PixelColor,
) -> Seq<u8> {
    Seq::new(
        bytes.len(),
        |i: int|
            if in_rect_bytes(i, stride, x0, y0, rw, rh) {
                channel_byte(fmt, c, i % 4)
            } else {
                bytes[i]
            },
    )
}

/// Painting a rectangle is idempotent: painting it twice with one color
/// leaves exactly the bytes that one painting leaves. This is the law behind
/// repeated `flush` calls producing one and the same fully-background frame.
pub proof fn lemma_fill_idempotent(
    bytes: Seq<u8>,
    stride: int,
    fmt: PixelFormat,
    x0: int,
    y0: int,
    rw: int,
    rh: int,
    c: PixelColor,
)
    ensures
        rect_filled(rect_filled(bytes, stride, fmt, x0, y0, rw, rh, c), stride, fmt, x0, y0, rw, rh, c)
            == rect_filled(bytes, stride, fmt, x0, y0, rw, rh, c),
{
    assert(rect_filled(rect_filled(bytes, stride, fmt, x0, y0, rw, rh, c), stride, fmt, x0, y0, rw, rh, c)
        =~= rect_filled(bytes, stride, fmt, x0, y0, rw, rh, c));
}

/// Every pixel inside the filled rectangle shows the fill color.
pub proof fn lemma_rect_filled_pixel_inside(
    bytes: Seq<u8>,
    stride: int,
    fmt: PixelFormat,
    x0: int,
    y0: int,
    rw: int,
    rh: int,
    c: PixelColor,
    h: int,
    x: int,
    y: int,
)
    requires
        bytes.len() == 4 * stride * h,
        0 <= x < stride,
        0 <= y < h,
        x0 <= x < x0 + rw,
        y0 <= y < y0 + rh,
    ensures
        pixel_color_at(rect_filled(bytes, stride, fmt, x0, y0, rw, rh, c), stride, fmt, x, y) == c,
{
    lemma_pixel_index(stride, h, x, y);
    lemma_byte_index_parts(stride, x, y, 0);
    lemma_byte_index_parts(stride, x, y, 1);
    lemma_byte_index_parts(stride, x, y, 2);
}

/// Every pixel outside the filled rectangle keeps its color.
pub proof fn lemma_rect_filled_pixel_outside(
    bytes: Seq<u8>,
    stride: int,
    fmt: PixelFormat,
    x0: int,
    y0: int,
    rw: int,
    rh: int,
    c: PixelColor,
    h: int,
    x: int,
    y: int,
)
    requires
        bytes.len() == 4 * stride * h,
        0 <= x < stride,
        0 <= y < h,
        !(x0 <= x < x0 + rw && y0 <= y < y0 + rh),
    ensures
        pixel_color_at(rect_filled(bytes, stride, fmt, x0, y0, rw, rh, c), stride, fmt, x, y)
            == pixel_color_at(bytes, stride, fmt, x, y),
{
    lemma_pixel_index(stride, h, x, y);
    lemma_byte_index_parts(stride, x, y, 0);
    lemma_byte_index_parts(stride, x, y, 1);
    lemma_byte_index_parts(stride, x, y, 2);
}

/// The fixed desktop background color.
pub open spec fn spec_desktop_bg_color() -> PixelColor {
    PixelColor { r: 45, g: 118, b: 237 }
}

/// The fixed desktop background color, as a value.
pub fn desktop_bg_color() -> (c: PixelColor)
    ensures
        c == spec_desktop_bg_color(),
{
    PixelColor { r: 45, g: 118, b: 237 }
}

/// Paints every pixel of the rectangle at `pos` of extent `size` with
/// `color`, one pixel draw per position; nothing outside the rectangle's
/// channel bytes changes. The rectangle must lie inside the resolution.
#[verifier::loop_isolation(false)]
pub fn fill_rect(pixel_writer: &mut PixelWriter, pos: XY<usize>, size: XY<usize>, color: PixelColor)
    requires
        old(pixel_writer).wf(),
        pos.x + size.x <= old(pixel_writer).spec_width(),
        pos.y + size.y <= old(pixel_writer).spec_height(),
    ensures
        final(pixel_writer).wf(),
        final(pixel_writer).same_config(old(pixel_writer)),
        final(pixel_writer).frame() == rect_filled(
            old(pixel_writer).frame(),
            old(pixel_writer).spec_stride(),
            old(pixel_writer).fmt(),
            pos.x as int,
            pos.y as int,
            size.x as int,
            size.y as int,
            color,
        ),
{
    let ghost base = pixel_writer.frame();
    let ghost stride = pixel_writer.spec_stride();
    let ghost fmt = pixel_writer.fmt();
    let ghost px = pos.x as int;
    let ghost py = pos.y as int;
    proof {
        assert(base =~= rect_filled(base, stride, fmt, px, py, size.x as int, 0, color));
    }
    for dy in 0..size.y
        invariant
            pixel_writer.wf(),
            pixel_writer.same_config(old(pixel_writer)),
            pixel_writer.frame() == rect_filled(
                base,
                stride,
                fmt,
                px,
                py,
                size.x as int,
                dy as int,
                color,
            ),
    {
        let ghost row_base = pixel_writer.frame();
        proof {
            assert(row_base =~= rect_filled(row_base, stride, fmt, px, py + dy, 0, 1, color));
        }
        for dx in 0..size.x
            invariant
                pixel_writer.wf(),
                pixel_writer.same_config(old(pixel_writer)),
                pixel_writer.frame() == rect_filled(
                    row_base,
                    stride,
                    fmt,
                    px,
                    py + dy,
                    dx as int,
                    1,
                    color,
                ),
        {
            let ghost before = pixel_writer.frame();
            pixel_writer.draw_pixel(XY::new(pos.x + dx, pos.y + dy), color);
            proof {
                let xx = px + dx;
                let yy = py + dy;
                let off = byte_off(stride, xx, yy);
                let after = pixel_writer.frame();
                lemma_pixel_index(stride, pixel_writer.spec_height(), xx, yy);
                lemma_byte_index_parts(stride, xx, yy, 0);
                lemma_byte_index_parts(stride, xx, yy, 1);
                lemma_byte_index_parts(stride, xx, yy, 2);
                assert forall|i: int| 0 <= i < base.len() implies after[i] == rect_filled(
                    row_base,
                    stride,
                    fmt,
                    px,
                    yy,
                    dx + 1,
                    1,
                    color,
                )[i] by {
                    if i != off && i != off + 1 && i != off + 2 {
                        lemma_byte_index_recompose(stride, i);
                    }
                }
                assert(after =~= rect_filled(row_base, stride, fmt, px, yy, dx + 1, 1, color));
            }
        }
        proof {
            assert(rect_filled(row_base, stride, fmt, px, py + dy, size.x as int, 1, color)
                =~= rect_filled(base, stride, fmt, px, py, size.x as int, dy + 1, color));
        }
    }
}

/// Paints the whole resolution with the desktop background color.
pub fn init(pixel_writer: &mut PixelWriter)
    requires
        old(pixel_writer).wf(),
    ensures
        final(pixel_writer).wf(),
        final(pixel_writer).same_config(old(pixel_writer)),
        final(pixel_writer).frame() == rect_filled(
            old(pixel_writer).frame(),
            old(pixel_writer).spec_stride(),
            old(pixel_writer).fmt(),
            0,
            0,
            old(pixel_writer).spec_width(),
            old(pixel_writer).spec_height(),
            spec_desktop_bg_color(),
        ),
{
    let w = pixel_writer.width();
    let h = pixel_writer.height();
    fill_rect(pixel_writer, XY::new(0, 0), XY::new(w, h), desktop_bg_color());
}

} // verus!

//! The fixed-size bitmap font rasterizer.
//!
//! A font is an immutable table of 8 x 16 glyph bitmaps, one 16-byte bitmap
//! per byte-sized character code, rendered into 10 x 18 monospaced cells
//! (2 spacing pixels per axis that the rasterizer leaves untouched). Every
//! block pixel is painted — foreground where the bitmap bit is set,
//! background elsewhere — which is what makes scrolling by repaint total.

use vstd::prelude::*;

use crate::common::str_chars;
use crate::common::PixelColor;
use crate::common::XY;
use crate::frame_buffer::byte_off;
use crate::frame_buffer::channel_byte;
use crate::frame_buffer::lemma_byte_index_parts;
use crate::frame_buffer::lemma_byte_index_recompose;
use crate::frame_buffer::lemma_pixel_index;
use crate::frame_buffer::pixel_color_at;
use crate::frame_buffer::PixelFormat;
use crate::frame_buffer::PixelWriter;
use crate::screen::in_rect_bytes;

verus! {

/// The glyph table holds a full 16-byte bitmap for `code`, and the code is
/// small enough to be recorded in a one-byte console cell.
pub open spec fn glyph_fits(table: Seq<u8>, code: int) -> bool {
    0 <= code < 256 && 16 * code + 16 <= table.len()
}

/// The byte code whose glyph is painted, and which a console cell records,
/// for the character `c`: the character's own code when that is a non-zero
/// byte-sized code with a full bitmap in the table (code 0 is reserved for
/// blank cells), otherwise the code of the placeholder `?`.
pub open spec fn effective_code(table: Seq<u8>, c: char) -> u8 {
    if c as int != 0 && glyph_fits(table, c as int) {
        (c as int) as u8
    } else {
        63u8
    }
}

/// Bit `dx` (0 is the leftmost pixel) of bitmap row `dy` of the glyph for
/// `code`; the most significant bit is the leftmost column.
pub open spec fn glyph_bit(table: Seq<u8>, code: u8, dx: int, dy: int) -> bool {
    table[16 * (code as int) + dy] & (0x80u8 >> (dx as u8)) != 0
}

/// The color that the glyph block for `code` shows at block offset
/// `(dx, dy)`.
pub open spec fn glyph_pixel_color(
    table: Seq<u8>,
    code: u8,
    dx: int,
    dy: int,
    fg: PixelColor,
    bg: PixelColor,
) -> PixelColor {
    if glyph_bit(table, code, dx, dy) {
        fg
    } else {
        bg
    }
}

/// The region bytes after the pixels of the rectangle at `(rx0, ry0)` of
/// extent `(rw, rh)` are painted with the glyph colors for `code`, taking
/// glyph block offsets relative to `(x0, y0)`; every other byte is kept.
pub open spec fn glyph_region_painted(
    bytes: Seq<u8>,
    stride: int,
    fmt: PixelFormat,
    table: Seq<u8>,
    code: u8,
    x0: int,
    y0: int,
    rx0: int,
    ry0: int,
    rw: int,
    rh: int,
    fg: PixelColor,
    bg: PixelColor,
) -> Seq<u8> {
    Seq::new(
        bytes.len(),
        |i: int|
            if in_rect_bytes(i, stride, rx0, ry0, rw, rh) {
                channel_byte(
                    fmt,
                    glyph_pixel_color(
                        table,
                        code,
                        (i / 4) % stride - x0,
                        (i / 4) / stride - y0,
                        fg,
                        bg,
                    ),
                    i % 4,
                )
            } else {
                bytes[i]
            },
    )
}

/// The region bytes after the whole 8 x 16 glyph block for `code` is painted
/// with its top-left pixel at `(x0, y0)`.
pub open spec fn glyph_blitted(
    bytes: Seq<u8>,
    stride: int,
    fmt: PixelFormat,
    table: Seq<u8>,
    code: u8,
    x0: int,
    y0: int,
    fg: PixelColor,
    bg: PixelColor,
) -> Seq<u8> {
    glyph_region_painted(bytes, stride, fmt, table, code, x0, y0, x0, y0, 8, 16, fg, bg)
}

/// Every pixel inside the blitted glyph block shows its glyph color.
pub proof fn lemma_glyph_blitted_pixel_inside(
    bytes: Seq<u8>,
    stride: int,
    fmt: PixelFormat,
    table: Seq<u8>,
    code: u8,
    x0: int,
    y0: int,
    fg: PixelColor,
    bg: PixelColor,
    h: int,
    x: int,
    y: int,
)
    requires
        bytes.len() == 4 * stride * h,
        0 <= x < stride,
        0 <= y < h,
        x0 <= x < x0 + 8,
        y0 <= y < y0 + 16,
    ensures
        pixel_color_at(
            glyph_blitted(bytes, stride, fmt, table, code, x0, y0, fg, bg),
            stride,
            fmt,
            x,
            y,
        ) == glyph_pixel_color(table, code, x - x0, y - y0, fg, bg),
{
    lemma_pixel_index(stride, h, x, y);
    lemma_byte_index_parts(stride, x, y, 0);
    lemma_byte_index_parts(stride, x, y, 1);
    lemma_byte_index_parts(stride, x, y, 2);
}

/// Every pixel outside the blitted glyph block keeps its color.
pub proof fn lemma_glyph_blitted_pixel_outside(
    bytes: Seq<u8>,
    stride: int,
    fmt: PixelFormat,
    table: Seq<u8>,
    code: u8,
    x0: int,
    y0: int,
    fg: PixelColor,
    bg: PixelColor,
    h: int,
    x: int,
    y: int,
)
    requires
        bytes.len() == 4 * stride * h,
        0 <= x < stride,
        0 <= y < h,
        !(x0 <= x < x0 + 8 && y0 <= y < y0 + 16),
    ensures
        pixel_color_at(
            glyph_blitted(bytes, stride, fmt, table, code, x0, y0, fg, bg),
            stride,
            fmt,
            x,
            y,
        ) == pixel_color_at(bytes, stride, fmt, x, y),
{
    lemma_pixel_index(stride, h, x, y);
    lemma_byte_index_parts(stride, x, y, 0);
    lemma_byte_index_parts(stride, x, y, 1);
    lemma_byte_index_parts(stride, x, y, 2);
}

/// The region bytes after the characters of `s` are rasterized left to
/// right from `(x0, y0)`, each glyph block 10 pixels after the previous
/// one.
pub open spec fn str_blitted(
    bytes: Seq<u8>,
    stride: int,
    fmt: PixelFormat,
    table: Seq<u8>,
    s: Seq<char>,
    x0: int,
    y0: int,
    fg: PixelColor,
    bg: PixelColor,
) -> Seq<u8>
    decreases s.len(),
{
    if s.len() == 0 {
        bytes
    } else {
        str_blitted(
            glyph_blitted(bytes, stride, fmt, table, effective_code(table, s[0]), x0, y0, fg, bg),
            stride,
            fmt,
            table,
            s.drop_first(),
            x0 + 10,
            y0,
            fg,
            bg,
        )
    }
}

/// An immutable table of fixed-size glyph bitmaps indexed by character code,
/// living as embedded read-only data for the process lifetime.
pub struct Font<'a> {
    regular: &'a [u8],
}

impl<'a> Font<'a> {
    /// The glyph table bytes.
    pub closed spec fn table(&self) -> Seq<u8> {
        self.regular@
    }

    pub fn new(regular: &'a [u8]) -> (f: Self)
        ensures
            f.table() == regular@,
    {
        Self { regular }
    }

    /// The monospaced glyph cell size: the 8 x 16 bitmap plus 2 spacing
    /// pixels per axis.
    pub fn char_size(&self) -> (r: XY<usize>)
        ensures
            r.x == 10,
            r.y == 18,
    {
        XY::new(8 + 2, 16 + 2)
    }

    /// Paints the 8 x 16 glyph block for `code` with its top-left pixel at
    /// `pos`, one pixel draw per block position; nothing else changes.
    #[verifier::loop_isolation(false)]
    pub(crate) fn draw_code(
        &self,
        pixel_writer: &mut PixelWriter,
        pos: XY<usize>,
        fg: PixelColor,
        bg: PixelColor,
        code: u8,
    )
        requires
            old(pixel_writer).wf(),
            glyph_fits(self.table(), code as int),
            pos.x + 8 <= old(pixel_writer).spec_width(),
            pos.y + 16 <= old(pixel_writer).spec_height(),
        ensures
            final(pixel_writer).wf(),
            final(pixel_writer).same_config(old(pixel_writer)),
            final(pixel_writer).frame() == glyph_blitted(
                old(pixel_writer).frame(),
                old(pixel_writer).spec_stride(),
                old(pixel_writer).fmt(),
                self.table(),
                code,
                pos.x as int,
                pos.y as int,
                fg,
                bg,
            ),
    {
        let ghost base = pixel_writer.frame();
        let ghost stride = pixel_writer.spec_stride();
        let ghost fmt = pixel_writer.fmt();
        let ghost table = self.table();
        let ghost x0 = pos.x as int;
        let ghost y0 = pos.y as int;
        proof {
            assert(base =~= glyph_region_painted(
                base,
                stride,
                fmt,
                table,
                code,
                x0,
                y0,
                x0,
                y0,
                8,
                0,
                fg,
                bg,
            ));
        }
        for dy in 0..16usize
            invariant
                pixel_writer.wf(),
                pixel_writer.same_config(old(pixel_writer)),
                pixel_writer.frame() == glyph_region_painted(
                    base,
                    stride,
                    fmt,
                    table,
                    code,
                    x0,
                    y0,
                    x0,
                    y0,
                    8,
                    dy as int,
                    fg,
                    bg,
                ),
        {
            let row = self.regular[(code as usize) * 16 + dy];
            let ghost row_base = pixel_writer.frame();
            proof {
                assert(row_base =~= glyph_region_painted(
                    row_base,
                    stride,
                    fmt,
                    table,
                    code,
                    x0,
                    y0,
                    x0,
                    y0 + dy,
                    0,
                    1,
                    fg,
                    bg,
                ));
            }
            for dx in 0..8usize
                invariant
                    pixel_writer.wf(),
                    pixel_writer.same_config(old(pixel_writer)),
                    pixel_writer.frame() == glyph_region_painted(
                        row_base,
                        stride,
                        fmt,
                        table,
                        code,
                        x0,
                        y0,
                        x0,
                        y0 + dy,
                        dx as int,
                        1,
                        fg,
                        bg,
                    ),
            {
                let color = if row & (0x80u8 >> (dx as u8)) != 0 {
                    fg
                } else {
                    bg
                };
                proof {
                    assert(color == glyph_pixel_color(table, code, dx as int, dy as int, fg, bg));
                }
                pixel_writer.draw_pixel(XY::new(pos.x + dx, pos.y + dy), color);
                proof {
                    let xx = x0 + dx;
                    let yy = y0 + dy;
                    let off = byte_off(stride, xx, yy);
                    let after = pixel_writer.frame();
                    lemma_pixel_index(stride, pixel_writer.spec_height(), xx, yy);
                    lemma_byte_index_parts(stride, xx, yy, 0);
                    lemma_byte_index_parts(stride, xx, yy, 1);
                    lemma_byte_index_parts(stride, xx, yy, 2);
                    assert forall|i: int| 0 <= i < base.len() implies after[i]
                        == glyph_region_painted(
                        row_base,
                        stride,
                        fmt,
                        table,
                        code,
                        x0,
                        y0,
                        x0,
                        y0 + dy,
                        dx + 1,
                        1,
                        fg,
                        bg,
                    )[i] by {
                        if i != off && i != off + 1 && i != off + 2 {
                            lemma_byte_index_recompose(stride, i);
                        }
                    }
                    assert(after =~= glyph_region_painted(
                        row_base,
                        stride,
                        fmt,
                        table,
                        code,
                        x0,
                        y0,
                        x0,
                        y0 + dy,
                        dx + 1,
                        1,
                        fg,
                        bg,
                    ));
                }
            }
            proof {
                assert(glyph_region_painted(
                    row_base,
                    stride,
                    fmt,
                    table,
                    code,
                    x0,
                    y0,
                    x0,
                    y0 + dy,
                    8,
                    1,
                    fg,
                    bg,
                ) =~= glyph_region_painted(
                    base,
                    stride,
                    fmt,
                    table,
                    code,
                    x0,
                    y0,
                    x0,
                    y0,
                    8,
                    dy + 1,
                    fg,
                    bg,
                ));
            }
        }
    }

    /// The byte code whose glyph this font paints for `c`: the character's
    /// own code when it has a usable glyph, otherwise the placeholder `?`
    /// (which the table is required to hold).
    pub fn glyph_code(&self, c: char) -> (e: u8)
        requires
            glyph_fits(self.table(), 63),
        ensures
            e == effective_code(self.table(), c),
            e != 0,
            glyph_fits(self.table(), e as int),
    {
        let code: u32 = c as u32;
        if code != 0 && code < 256 && (code as usize) * 16 + 16 <= self.regular.len() {
            code as u8
        } else {
            63
        }
    }

    /// Rasterizes a string left to right from `pos`, advancing the pen by
    /// one cell width (10 pixels) per character. It never wraps lines: line
    /// wrap is the console's job, not the font's.
    #[verifier::loop_isolation(false)]
    pub fn draw_str(
        &self,
        pixel_writer: &mut PixelWriter,
        pos: XY<usize>,
        fg: PixelColor,
        bg: PixelColor,
        s: &str,
    )
        requires
            old(pixel_writer).wf(),
            glyph_fits(self.table(), 63),
            pos.x + 10 * s@.len() <= old(pixel_writer).spec_width(),
            pos.y + 16 <= old(pixel_writer).spec_height(),
        ensures
            final(pixel_writer).wf(),
            final(pixel_writer).same_config(old(pixel_writer)),
            final(pixel_writer).frame() == str_blitted(
                old(pixel_writer).frame(),
                old(pixel_writer).spec_stride(),
                old(pixel_writer).fmt(),
                self.table(),
                s@,
                pos.x as int,
                pos.y as int,
                fg,
                bg,
            ),
    {
        let ghost f0 = pixel_writer.frame();
        let ghost stride = pixel_writer.spec_stride();
        let ghost fmt = pixel_writer.fmt();
        let ghost table = self.table();
        let chars = str_chars(s);
        let n = chars.len();
        proof {
            assert(s@.skip(0) =~= s@);
        }
        for i in 0..n
            invariant
                pixel_writer.wf(),
                pixel_writer.same_config(old(pixel_writer)),
                str_blitted(
                    pixel_writer.frame(),
                    stride,
                    fmt,
                    table,
                    s@.skip(i as int),
                    pos.x + 10 * i,
                    pos.y as int,
                    fg,
                    bg,
                ) == str_blitted(f0, stride, fmt, table, s@, pos.x as int, pos.y as int, fg, bg),
        {
            let ghost before = pixel_writer.frame();
            let c = chars[i];
            self.draw_char(pixel_writer, XY::new(pos.x + i * 10, pos.y), fg, bg, c);
            proof {
                assert(s@.skip(i as int)[0] == s@[i as int]);
                assert(s@.skip(i as int).drop_first() =~= s@.skip(i + 1));
            }
        }
        proof {
            assert(s@.skip(n as int) =~= Seq::<char>::empty());
        }
    }

    /// Rasterizes one character at `pos`: the glyph block is fully painted,
    /// `fg` where the bitmap bit is set and `bg` elsewhere. A character
    /// without a usable byte-sized glyph is substituted by the placeholder
    /// `?` (fail-soft, never a fault), so the table must at least cover the
    /// placeholder's bitmap.
    pub fn draw_char(
        &self,
        pixel_writer: &mut PixelWriter,
        pos: XY<usize>,
        fg: PixelColor,
        bg: PixelColor,
        c: char,
    )
        requires
            old(pixel_writer).wf(),
            glyph_fits(self.table(), 63),
            pos.x + 8 <= old(pixel_writer).spec_width(),
            pos.y + 16 <= old(pixel_writer).spec_height(),
        ensures
            final(pixel_writer).wf(),
            final(pixel_writer).same_config(old(pixel_writer)),
            final(pixel_writer).frame() == glyph_blitted(
                old(pixel_writer).frame(),
                old(pixel_writer).spec_stride(),
                old(pixel_writer).fmt(),
                self.table(),
                effective_code(self.table(), c),
                pos.x as int,
                pos.y as int,
                fg,
                bg,
            ),
    {
        let e = self.glyph_code(c);
        self.draw_code(pixel_writer, pos, fg, bg, e);
    }
}

} // verus!

//! The character-grid console.
//!
//! The console owns a rows x columns byte buffer that mirrors exactly what
//! is painted: cell value 0 means a blank, background-colored cell; any
//! other value is the code of the glyph shown there. A cursor walks the
//! grid; printable characters are recorded and painted at the cursor and
//! advance it, except at the last writable column where they are silently
//! dropped (no auto-wrap); a newline returns the column to 0 and either
//! advances the row or, from the bottom row, scrolls: the whole frame is
//! repainted with the background, the rows shift up by one, the last row is
//! blanked, and the shifted text is repainted cell by cell.

use vstd::prelude::*;

use crate::common::PixelColor;
use crate::common::XY;
use crate::common::str_chars;
use crate::font::effective_code;
use crate::font::glyph_fits;
use crate::font::glyph_pixel_color;
use crate::font::lemma_glyph_blitted_pixel_inside;
use crate::font::lemma_glyph_blitted_pixel_outside;
use crate::font::Font;
use crate::frame_buffer::pixel_color_at;
use crate::frame_buffer::PixelFormat;
use crate::frame_buffer::PixelWriter;
use crate::screen::fill_rect;
use crate::screen::lemma_fill_idempotent;
use crate::screen::lemma_rect_filled_pixel_inside;
use crate::screen::rect_filled;

verus! {

/// The console background color.
pub open spec fn spec_console_bg_color() -> PixelColor {
    PixelColor { r: 0, g: 0, b: 0 }
}

/// The console foreground (text) color.
pub open spec fn spec_console_fg_color() -> PixelColor {
    PixelColor { r: 255, g: 255, b: 255 }
}

/// The console background color, as a value.
pub fn console_bg_color() -> (c: PixelColor)
    ensures
        c == spec_console_bg_color(),
{
    PixelColor { r: 0, g: 0, b: 0 }
}

/// The console foreground color, as a value.
pub fn console_fg_color() -> (c: PixelColor)
    ensures
        c == spec_console_fg_color(),
{
    PixelColor { r: 255, g: 255, b: 255 }
}

/// The rows of a two-dimensional byte buffer, as sequences.
pub open spec fn grid_view(rows: Seq<Vec<u8>>) -> Seq<Seq<u8>> {
    Seq::new(rows.len(), |r: int| rows[r]@)
}

/// An all-blank row.
pub open spec fn blank_row(cols: int) -> Seq<u8> {
    Seq::new(cols as nat, |c: int| 0u8)
}

/// An all-blank grid.
pub open spec fn empty_grid(rows: int, cols: int) -> Seq<Seq<u8>> {
    Seq::new(rows as nat, |r: int| blank_row(cols))
}

/// The state step for one printable (non-newline) character at cursor
/// `(cx, cy)`: left of the last column the character's effective code is
/// recorded and the cursor advances by one column; at the last column the
/// character is dropped and nothing changes.
pub open spec fn put_char_state(
    cols: int,
    table: Seq<u8>,
    grid: Seq<Seq<u8>>,
    cx: int,
    cy: int,
    c: char,
) -> (Seq<Seq<u8>>, int, int) {
    if cx < cols - 1 {
        (grid.update(cy, grid[cy].update(cx, effective_code(table, c))), cx + 1, cy)
    } else {
        (grid, cx, cy)
    }
}

/// The grid after a scroll: every row moved up by one, the last row blank.
pub open spec fn scrolled(grid: Seq<Seq<u8>>, cols: int) -> Seq<Seq<u8>> {
    Seq::new(
        grid.len(),
        |r: int|
            if r < grid.len() - 1 {
                grid[r + 1]
            } else {
                blank_row(cols)
            },
    )
}

/// The state step for a newline at cursor row `cy`: the column returns to 0
/// and either the row advances, or, from the bottom row, the grid scrolls
/// and the cursor stays on the bottom row.
pub open spec fn newline_state(rows: int, cols: int, grid: Seq<Seq<u8>>, cy: int) -> (
    Seq<Seq<u8>>,
    int,
    int,
) {
    if cy < rows - 1 {
        (grid, 0, cy + 1)
    } else {
        (scrolled(grid, cols), 0, cy)
    }
}

/// The state after the characters of `s` are written in order.
pub open spec fn put_string_state(
    rows: int,
    cols: int,
    table: Seq<u8>,
    grid: Seq<Seq<u8>>,
    cx: int,
    cy: int,
    s: Seq<char>,
) -> (Seq<Seq<u8>>, int, int)
    decreases s.len(),
{
    if s.len() == 0 {
        (grid, cx, cy)
    } else {
        let st = if s[0] == '\n' {
            newline_state(rows, cols, grid, cy)
        } else {
            put_char_state(cols, table, grid, cx, cy, s[0])
        };
        put_string_state(rows, cols, table, st.0, st.1, st.2, s.drop_first())
    }
}

/// A well-formed console state: the grid has the right shape, the cursor is
/// inside it, and every cell at or beyond the cursor is blank.
pub open spec fn state_wf(rows: int, cols: int, grid: Seq<Seq<u8>>, cx: int, cy: int) -> bool {
    &&& 1 <= rows
    &&& 1 <= cols
    &&& grid.len() == rows
    &&& (forall|r: int| 0 <= r < rows ==> (#[trigger] grid[r]).len() == cols)
    &&& 0 <= cx < cols
    &&& 0 <= cy < rows
    &&& (forall|c: int| cx <= c < cols ==> #[trigger] grid[cy][c] == 0)
    &&& (forall|r: int, c: int|
        cy < r < rows && 0 <= c < cols ==> #[trigger] grid[r][c] == 0)
}

/// The color that the grid prescribes for the pixel at `(x, y)`: the glyph
/// pixel of a written cell's code inside its 8 x 16 bitmap block, and the
/// background everywhere else (blank cells, the cells' spacing pixels, and
/// the area beyond the grid).
pub open spec fn grid_pixel(
    grid: Seq<Seq<u8>>,
    cols: int,
    table: Seq<u8>,
    x: int,
    y: int,
) -> PixelColor {
    if 0 <= y / 18 < grid.len() && 0 <= x / 10 < cols && x % 10 < 8 && y % 18 < 16 && grid[y
        / 18][x / 10] != 0 {
        glyph_pixel_color(
            table,
            grid[y / 18][x / 10],
            x % 10,
            y % 18,
            spec_console_fg_color(),
            spec_console_bg_color(),
        )
    } else {
        spec_console_bg_color()
    }
}

/// The frame shows, pixel for pixel over the whole resolution, exactly what
/// the grid prescribes.
pub open spec fn renders(
    grid: Seq<Seq<u8>>,
    cols: int,
    table: Seq<u8>,
    frame: Seq<u8>,
    stride: int,
    fmt: PixelFormat,
    w: int,
    h: int,
) -> bool {
    forall|x: int, y: int|
        0 <= x < w && 0 <= y < h ==> pixel_color_at(frame, stride, fmt, x, y) == #[trigger] grid_pixel(
            grid,
            cols,
            table,
            x,
            y,
        )
}

/// Every written cell records a code whose glyph the table fully holds.
pub open spec fn cells_have_glyphs(grid: Seq<Seq<u8>>, cols: int, table: Seq<u8>) -> bool {
    forall|r: int, c: int|
        0 <= r < grid.len() && 0 <= c < cols && #[trigger] grid[r][c] != 0 ==> glyph_fits(
            table,
            grid[r][c] as int,
        )
}

/// Over a frame painted entirely with the background color, an all-blank
/// grid renders correctly.
pub proof fn lemma_blank_grid_renders(
    grid: Seq<Seq<u8>>,
    cols: int,
    table: Seq<u8>,
    base: Seq<u8>,
    stride: int,
    fmt: PixelFormat,
    w: int,
    h: int,
)
    requires
        base.len() == 4 * stride * h,
        w <= stride,
        forall|r: int, c: int|
            0 <= r < grid.len() && 0 <= c < cols ==> #[trigger] grid[r][c] == 0,
    ensures
        renders(
            grid,
            cols,
            table,
            rect_filled(base, stride, fmt, 0, 0, w, h, spec_console_bg_color()),
            stride,
            fmt,
            w,
            h,
        ),
{
    let filled = rect_filled(base, stride, fmt, 0, 0, w, h, spec_console_bg_color());
    assert forall|x: int, y: int| 0 <= x < w && 0 <= y < h implies pixel_color_at(
        filled,
        stride,
        fmt,
        x,
        y,
    ) == #[trigger] grid_pixel(grid, cols, table, x, y) by {
        lemma_rect_filled_pixel_inside(
            base,
            stride,
            fmt,
            0,
            0,
            w,
            h,
            spec_console_bg_color(),
            h,
            x,
            y,
        );
    }
}

/// A character-grid console: a resolution, a cursor, the mirrored text
/// buffer, and the font it paints with. The buffer always shows exactly
/// what is painted; see [`renders`].
pub struct Console<'a> {
    resolution: (usize, usize),
    cursor: XY<usize>,
    buf: Vec<Vec<u8>>,
    font: Font<'a>,
}

impl<'a> Console<'a> {
    /// Grid rows, derived from the vertical resolution and the cell height.
    pub closed spec fn spec_rows(&self) -> int {
        self.resolution.1 as int / 18
    }

    /// Grid columns, derived from the horizontal resolution and the cell
    /// width.
    pub closed spec fn spec_cols(&self) -> int {
        self.resolution.0 as int / 10
    }

    /// The text buffer, row by row.
    pub closed spec fn grid(&self) -> Seq<Seq<u8>> {
        grid_view(self.buf@)
    }

    pub closed spec fn cursor_x(&self) -> int {
        self.cursor.x as int
    }

    pub closed spec fn cursor_y(&self) -> int {
        self.cursor.y as int
    }

    /// The glyph table of the console's font.
    pub closed spec fn table(&self) -> Seq<u8> {
        self.font.table()
    }

    /// The pixel resolution the console was laid out for.
    pub closed spec fn res(&self) -> (usize, usize) {
        self.resolution
    }

    /// The console's internal invariant: a well-formed state whose grid fits
    /// the resolution, with every written cell backed by a full glyph and a
    /// usable placeholder glyph.
    pub open spec fn wf(&self) -> bool {
        &&& state_wf(self.spec_rows(), self.spec_cols(), self.grid(), self.cursor_x(), self.cursor_y())
        &&& self.spec_cols() * 10 <= self.res().0
        &&& self.spec_rows() * 18 <= self.res().1
        &&& cells_have_glyphs(self.grid(), self.spec_cols(), self.table())
        &&& glyph_fits(self.table(), 63)
    }

    /// The writer draws exactly the resolution this console was laid out
    /// for.
    pub open spec fn fits(&self, pixel_writer: &PixelWriter) -> bool {
        &&& self.res().0 == pixel_writer.spec_width()
        &&& self.res().1 == pixel_writer.spec_height()
    }

    /// The writer's frame shows exactly what the console's buffer
    /// prescribes.
    pub open spec fn renders_on(&self, pixel_writer: &PixelWriter) -> bool {
        renders(
            self.grid(),
            self.spec_cols(),
            self.table(),
            pixel_writer.frame(),
            pixel_writer.spec_stride(),
            pixel_writer.fmt(),
            pixel_writer.spec_width(),
            pixel_writer.spec_height(),
        )
    }

    /// Resolution and font are unchanged (and with them the grid layout).
    pub open spec fn same_layout(&self, other: &Self) -> bool {
        &&& self.res() == other.res()
        &&& self.table() == other.table()
    }

    /// Builds the console for a display resolution (at least one glyph cell)
    /// and a font whose table holds at least the placeholder glyph: the grid
    /// is all blank and the cursor sits at the origin.
    pub fn new(resolution: (usize, usize), font: Font<'a>) -> (console: Self)
        requires
            resolution.0 >= 10,
            resolution.1 >= 18,
            glyph_fits(font.table(), 63),
        ensures
            console.wf(),
            console.res() == resolution,
            console.table() == font.table(),
            console.spec_rows() == resolution.1 as int / 18,
            console.spec_cols() == resolution.0 as int / 10,
            console.cursor_x() == 0,
            console.cursor_y() == 0,
            console.grid() == empty_grid(console.spec_rows(), console.spec_cols()),
    {
        let rows = resolution.1 / 18;
        let cols = resolution.0 / 10;
        let mut buf: Vec<Vec<u8>> = Vec::new();
        while buf.len() < rows
            invariant
                buf@.len() <= rows,
                forall|r: int| 0 <= r < buf@.len() ==> (#[trigger] buf@[r])@ == blank_row(cols as int),
            decreases rows - buf@.len(),
        {
            buf.push(blank_row_vec(cols));
        }
        let console = Console { resolution, cursor: XY::new(0, 0), buf, font };
        proof {
            assert(console.grid() =~= empty_grid(console.spec_rows(), console.spec_cols()));
            assert forall|r: int| 0 <= r < console.spec_rows() implies (#[trigger] console.grid()[r]).len()
                == console.spec_cols() by {}
        }
        console
    }

    /// Paints every pixel of the resolution with the console background; the
    /// buffer is untouched, so on an all-blank console (as right after
    /// construction) the screen and the buffer agree again afterwards.
    pub fn flush(&self, pixel_writer: &mut PixelWriter)
        requires
            self.wf(),
            old(pixel_writer).wf(),
            self.fits(old(pixel_writer)),
        ensures
            final(pixel_writer).wf(),
            final(pixel_writer).same_config(old(pixel_writer)),
            final(pixel_writer).frame() == rect_filled(
                old(pixel_writer).frame(),
                old(pixel_writer).spec_stride(),
                old(pixel_writer).fmt(),
                0,
                0,
                old(pixel_writer).spec_width(),
                old(pixel_writer).spec_height(),
                spec_console_bg_color(),
            ),
            (forall|r: int, c: int|
                0 <= r < self.grid().len() && 0 <= c < self.spec_cols()
                    ==> #[trigger] self.grid()[r][c] == 0) ==> self.renders_on(final(pixel_writer)),
    {
        let w = pixel_writer.width();
        let h = pixel_writer.height();
        fill_rect(pixel_writer, XY::new(0, 0), XY::new(w, h), console_bg_color());
        proof {
            if forall|r: int, c: int|
                0 <= r < self.grid().len() && 0 <= c < self.spec_cols()
                    ==> #[trigger] self.grid()[r][c] == 0 {
                lemma_blank_grid_renders(
                    self.grid(),
                    self.spec_cols(),
                    self.table(),
                    old(pixel_writer).frame(),
                    pixel_writer.spec_stride(),
                    pixel_writer.fmt(),
                    w as int,
                    h as int,
                );
            }
        }
    }
}

/// Two consecutive flushes leave exactly the frame that one flush leaves:
/// flushing paints every visible pixel with the background, so painting
/// them again changes nothing.
pub proof fn lemma_flush_idempotent(frame: Seq<u8>, stride: int, fmt: PixelFormat, w: int, h: int)
    ensures
        rect_filled(
            rect_filled(frame, stride, fmt, 0, 0, w, h, spec_console_bg_color()),
            stride,
            fmt,
            0,
            0,
            w,
            h,
            spec_console_bg_color(),
        ) == rect_filled(frame, stride, fmt, 0, 0, w, h, spec_console_bg_color()),
{
    lemma_fill_idempotent(frame, stride, fmt, 0, 0, w, h, spec_console_bg_color());
}

/// Writing a string of directly-representable printable characters fills
/// one row left to right: starting at column `k` of row 0, the characters'
/// codes land in order, earlier cells of the row are untouched, and the
/// cursor ends right after the last character.
proof fn lemma_row_fill(
    rows: int,
    cols: int,
    table: Seq<u8>,
    grid: Seq<Seq<u8>>,
    k: int,
    s: Seq<char>,
)
    requires
        state_wf(rows, cols, grid, k, 0),
        k + s.len() < cols,
        forall|j: int|
            0 <= j < s.len() ==> (#[trigger] s[j]) as int != 0 && s[j] != '\n' && glyph_fits(
                table,
                s[j] as int,
            ),
    ensures
        (
        {
            let st = put_string_state(rows, cols, table, grid, k, 0, s);
            &&& st.1 == k + s.len()
            &&& st.2 == 0
            &&& st.0.len() == rows
            &&& (forall|j: int|
                0 <= j < s.len() ==> #[trigger] st.0[0][k + j] == (s[j] as int) as u8)
            &&& (forall|c: int| 0 <= c < k ==> #[trigger] st.0[0][c] == grid[0][c])
            &&& state_wf(rows, cols, st.0, k + s.len(), 0)
        }
        ),
    decreases s.len(),
{
    if s.len() == 0 {
    } else {
        let c0 = s[0];
        let st1 = put_char_state(cols, table, grid, k, 0, c0);
        lemma_put_char_advances(rows, cols, table, grid, k, 0, c0);
        lemma_row_fill(rows, cols, table, st1.0, k + 1, s.drop_first());
        let st = put_string_state(rows, cols, table, grid, k, 0, s);
        let stx = put_string_state(rows, cols, table, st1.0, k + 1, 0, s.drop_first());
        assert(st == stx);
        assert forall|j: int| 0 <= j < s.len() implies #[trigger] st.0[0][k + j] == (
        s[j] as int) as u8 by {
            if j == 0 {
                assert(st.0[0][k] == st1.0[0][k]);
                assert(st1.0[0][k] == effective_code(table, c0));
            } else {
                assert(s.drop_first()[j - 1] == s[j]);
                assert(st.0[0][(k + 1) + (j - 1)] == (s.drop_first()[j - 1] as int) as u8);
            }
        }
    }
}

/// Round trip: writing a short string of directly-representable printable
/// characters into an empty console lands the characters' codes, in order,
/// at the start of row 0; every other cell of the grid stays blank and the
/// cursor ends at `(s.len(), 0)`.
pub proof fn lemma_round_trip(rows: int, cols: int, table: Seq<u8>, s: Seq<char>)
    requires
        1 <= rows,
        1 <= cols,
        s.len() < cols,
        forall|j: int|
            0 <= j < s.len() ==> (#[trigger] s[j]) as int != 0 && s[j] != '\n' && glyph_fits(
                table,
                s[j] as int,
            ),
    ensures
        (
        {
            let st = put_string_state(rows, cols, table, empty_grid(rows, cols), 0, 0, s);
            &&& st.1 == s.len()
            &&& st.2 == 0
            &&& st.0.len() == rows
            &&& (forall|j: int| 0 <= j < s.len() ==> #[trigger] st.0[0][j] == (s[j] as int) as u8)
            &&& (forall|c: int| s.len() <= c < cols ==> #[trigger] st.0[0][c] == 0)
            &&& (forall|r: int, c: int|
                1 <= r < rows && 0 <= c < cols ==> #[trigger] st.0[r][c] == 0)
        }
        ),
{
    let grid = empty_grid(rows, cols);
    assert(state_wf(rows, cols, grid, 0, 0));
    lemma_row_fill(rows, cols, table, grid, 0, s);
    let st = put_string_state(rows, cols, table, grid, 0, 0, s);
    assert forall|j: int| 0 <= j < s.len() implies #[trigger] st.0[0][j] == (s[j] as int) as u8 by {
        assert(st.0[0][0 + j] == (s[j] as int) as u8);
    }
}

/// The color prescription while a redraw has painted every cell before row
/// `r` plus the first `c` cells of row `r`, in row-major order: painted
/// cells show their grid prescription, everything else the background.
spec fn partial_grid_pixel(
    grid: Seq<Seq<u8>>,
    cols: int,
    table: Seq<u8>,
    r: int,
    c: int,
    x: int,
    y: int,
) -> PixelColor {
    if y / 18 < r || (y / 18 == r && x / 10 < c) {
        grid_pixel(grid, cols, table, x, y)
    } else {
        spec_console_bg_color()
    }
}

/// The frame shows the partial-redraw prescription for every pixel.
spec fn partial_renders(
    grid: Seq<Seq<u8>>,
    cols: int,
    table: Seq<u8>,
    frame: Seq<u8>,
    stride: int,
    fmt: PixelFormat,
    w: int,
    h: int,
    r: int,
    c: int,
) -> bool {
    forall|x: int, y: int|
        0 <= x < w && 0 <= y < h ==> pixel_color_at(frame, stride, fmt, x, y)
            == #[trigger] partial_grid_pixel(grid, cols, table, r, c, x, y)
}

impl<'a> Console<'a> {
    /// Repaints the glyph of every written cell over an all-background
    /// frame, re-establishing the screen/buffer correspondence; the scroll
    /// transition uses it after the full background repaint.
    #[verifier::loop_isolation(false)]
    fn redraw(&self, pixel_writer: &mut PixelWriter)
        requires
            self.wf(),
            old(pixel_writer).wf(),
            self.fits(old(pixel_writer)),
            forall|x: int, y: int|
                0 <= x < old(pixel_writer).spec_width() && 0 <= y < old(
                    pixel_writer,
                ).spec_height() ==> pixel_color_at(
                    old(pixel_writer).frame(),
                    old(pixel_writer).spec_stride(),
                    old(pixel_writer).fmt(),
                    x,
                    y,
                ) == spec_console_bg_color(),
        ensures
            final(pixel_writer).wf(),
            final(pixel_writer).same_config(old(pixel_writer)),
            self.renders_on(final(pixel_writer)),
    {
        let ghost grid = self.grid();
        let ghost colss = self.spec_cols();
        let ghost table = self.table();
        let ghost stride = pixel_writer.spec_stride();
        let ghost fmt = pixel_writer.fmt();
        let ghost w = pixel_writer.spec_width();
        let ghost h = pixel_writer.spec_height();
        let rows = self.buf.len();
        let cols = self.resolution.0 / 10;
        proof {
            assert forall|x: int, y: int| 0 <= x < w && 0 <= y < h implies pixel_color_at(
                pixel_writer.frame(),
                stride,
                fmt,
                x,
                y,
            ) == #[trigger] partial_grid_pixel(grid, colss, table, 0, 0, x, y) by {}
        }
        for r in 0..rows
            invariant
                pixel_writer.wf(),
                pixel_writer.same_config(old(pixel_writer)),
                partial_renders(
                    grid,
                    colss,
                    table,
                    pixel_writer.frame(),
                    stride,
                    fmt,
                    w,
                    h,
                    r as int,
                    0,
                ),
        {
            for c in 0..cols
                invariant
                    pixel_writer.wf(),
                    pixel_writer.same_config(old(pixel_writer)),
                    partial_renders(
                        grid,
                        colss,
                        table,
                        pixel_writer.frame(),
                        stride,
                        fmt,
                        w,
                        h,
                        r as int,
                        c as int,
                    ),
            {
                proof {
                    assert(self.grid()[r as int].len() == self.spec_cols());
                }
                let v = self.buf[r][c];
                proof {
                    assert(v == self.grid()[r as int][c as int]);
                }
                if v != 0 {
                    let ghost before = pixel_writer.frame();
                    self.font.draw_code(
                        pixel_writer,
                        XY::new(c * 10, r * 18),
                        console_fg_color(),
                        console_bg_color(),
                        v,
                    );
                    proof {
                        let x0 = c as int * 10;
                        let y0 = r as int * 18;
                        assert forall|x: int, y: int| 0 <= x < w && 0 <= y < h implies pixel_color_at(
                            pixel_writer.frame(),
                            stride,
                            fmt,
                            x,
                            y,
                        ) == #[trigger] partial_grid_pixel(
                            grid,
                            colss,
                            table,
                            r as int,
                            c + 1,
                            x,
                            y,
                        ) by {
                            assert(pixel_color_at(before, stride, fmt, x, y)
                                == partial_grid_pixel(grid, colss, table, r as int, c as int, x, y));
                            if x0 <= x < x0 + 8 && y0 <= y < y0 + 16 {
                                lemma_glyph_blitted_pixel_inside(
                                    before,
                                    stride,
                                    fmt,
                                    table,
                                    v,
                                    x0,
                                    y0,
                                    spec_console_fg_color(),
                                    spec_console_bg_color(),
                                    h,
                                    x,
                                    y,
                                );
                            } else {
                                lemma_glyph_blitted_pixel_outside(
                                    before,
                                    stride,
                                    fmt,
                                    table,
                                    v,
                                    x0,
                                    y0,
                                    spec_console_fg_color(),
                                    spec_console_bg_color(),
                                    h,
                                    x,
                                    y,
                                );
                            }
                        }
                    }
                } else {
                    proof {
                        assert forall|x: int, y: int| 0 <= x < w && 0 <= y < h implies pixel_color_at(
                            pixel_writer.frame(),
                            stride,
                            fmt,
                            x,
                            y,
                        ) == #[trigger] partial_grid_pixel(
                            grid,
                            colss,
                            table,
                            r as int,
                            c + 1,
                            x,
                            y,
                        ) by {
                            assert(pixel_color_at(pixel_writer.frame(), stride, fmt, x, y)
                                == partial_grid_pixel(grid, colss, table, r as int, c as int, x, y));
                        }
                    }
                }
            }
            proof {
                assert forall|x: int, y: int| 0 <= x < w && 0 <= y < h implies pixel_color_at(
                    pixel_writer.frame(),
                    stride,
                    fmt,
                    x,
                    y,
                ) == #[trigger] partial_grid_pixel(grid, colss, table, r + 1, 0, x, y) by {
                    assert(pixel_color_at(pixel_writer.frame(), stride, fmt, x, y)
                        == partial_grid_pixel(grid, colss, table, r as int, colss, x, y));
                }
            }
        }
        proof {
            assert forall|x: int, y: int| 0 <= x < w && 0 <= y < h implies pixel_color_at(
                pixel_writer.frame(),
                stride,
                fmt,
                x,
                y,
            ) == #[trigger] grid_pixel(grid, colss, table, x, y) by {
                assert(pixel_color_at(pixel_writer.frame(), stride, fmt, x, y)
                    == partial_grid_pixel(grid, colss, table, rows as int, 0, x, y));
            }
        }
    }

    /// Records and paints one non-newline character: left of the last
    /// writable column its glyph is painted at the cursor's cell, its code
    /// recorded, and the cursor advances; at the last column the character
    /// is silently dropped.
    fn put_char(&mut self, pixel_writer: &mut PixelWriter, c: char)
        requires
            old(self).wf(),
            old(pixel_writer).wf(),
            old(self).fits(old(pixel_writer)),
            old(self).renders_on(old(pixel_writer)),
            c != '\n',
        ensures
            final(self).wf(),
            final(pixel_writer).wf(),
            final(pixel_writer).same_config(old(pixel_writer)),
            final(self).same_layout(old(self)),
            final(self).fits(final(pixel_writer)),
            final(self).renders_on(final(pixel_writer)),
            ((final(self).grid(), final(self).cursor_x(), final(self).cursor_y())
                == put_char_state(
                old(self).spec_cols(),
                old(self).table(),
                old(self).grid(),
                old(self).cursor_x(),
                old(self).cursor_y(),
                c,
            )),
    {
        let cols = self.resolution.0 / 10;
        if self.cursor.x < cols - 1 {
            let cx = self.cursor.x;
            let cy = self.cursor.y;
            let ghost grid0 = self.grid();
            let ghost table = self.table();
            let ghost colss = self.spec_cols();
            let ghost stride = pixel_writer.spec_stride();
            let ghost fmt = pixel_writer.fmt();
            let ghost w = pixel_writer.spec_width();
            let ghost h = pixel_writer.spec_height();
            let ghost before = pixel_writer.frame();
            let e = self.font.glyph_code(c);
            self.font.draw_code(
                pixel_writer,
                XY::new(cx * 10, cy * 18),
                console_fg_color(),
                console_bg_color(),
                e,
            );
            proof {
                assert(self.grid()[cy as int].len() == self.spec_cols());
            }
            let row = &mut self.buf[cy];
            row.set(cx, e);
            proof {
                let x0 = cx as int * 10;
                let y0 = cy as int * 18;
                let grid1 = self.grid();
                lemma_put_char_advances(
                    self.spec_rows(),
                    colss,
                    table,
                    grid0,
                    cx as int,
                    cy as int,
                    c,
                );
                assert(grid1 =~= grid0.update(
                    cy as int,
                    grid0[cy as int].update(cx as int, effective_code(table, c)),
                ));
                assert forall|x: int, y: int| 0 <= x < w && 0 <= y < h implies pixel_color_at(
                    pixel_writer.frame(),
                    stride,
                    fmt,
                    x,
                    y,
                ) == #[trigger] grid_pixel(grid1, colss, table, x, y) by {
                    assert(pixel_color_at(before, stride, fmt, x, y)
                        == grid_pixel(grid0, colss, table, x, y));
                    if x0 <= x < x0 + 8 && y0 <= y < y0 + 16 {
                        lemma_glyph_blitted_pixel_inside(
                            before,
                            stride,
                            fmt,
                            table,
                            e,
                            x0,
                            y0,
                            spec_console_fg_color(),
                            spec_console_bg_color(),
                            h,
                            x,
                            y,
                        );
                    } else {
                        lemma_glyph_blitted_pixel_outside(
                            before,
                            stride,
                            fmt,
                            table,
                            e,
                            x0,
                            y0,
                            spec_console_fg_color(),
                            spec_console_bg_color(),
                            h,
                            x,
                            y,
                        );
                    }
                }
            }
            self.cursor = XY::new(cx + 1, cy);
        }
    }

    /// The newline transition: the column returns to 0; above the bottom
    /// row the cursor moves down one row, from the bottom row the console
    /// scrolls (full background repaint, rows shifted up, last row blanked,
    /// shifted text repainted).
    fn newline(&mut self, pixel_writer: &mut PixelWriter)
        requires
            old(self).wf(),
            old(pixel_writer).wf(),
            old(self).fits(old(pixel_writer)),
            old(self).renders_on(old(pixel_writer)),
        ensures
            final(self).wf(),
            final(pixel_writer).wf(),
            final(pixel_writer).same_config(old(pixel_writer)),
            final(self).same_layout(old(self)),
            final(self).fits(final(pixel_writer)),
            final(self).renders_on(final(pixel_writer)),
            ((final(self).grid(), final(self).cursor_x(), final(self).cursor_y())
                == newline_state(
                old(self).spec_rows(),
                old(self).spec_cols(),
                old(self).grid(),
                old(self).cursor_y(),
            )),
    {
        let rows = self.resolution.1 / 18;
        if self.cursor.y < rows - 1 {
            self.cursor = XY::new(0, self.cursor.y + 1);
        } else {
            let ghost grid0 = self.grid();
            let ghost colss = self.spec_cols();
            let ghost stride = pixel_writer.spec_stride();
            let ghost fmt = pixel_writer.fmt();
            let ghost w = pixel_writer.spec_width();
            let ghost h = pixel_writer.spec_height();
            let ghost before = pixel_writer.frame();
            self.flush(pixel_writer);
            self.buf.remove(0);
            self.buf.push(blank_row_vec(self.resolution.0 / 10));
            self.cursor = XY::new(0, self.cursor.y);
            proof {
                lemma_newline_scrolls(
                    self.spec_rows(),
                    colss,
                    grid0,
                    old(self).cursor_x(),
                    self.cursor_y(),
                );
                assert(self.grid() =~= scrolled(grid0, colss));
                assert forall|x: int, y: int| 0 <= x < w && 0 <= y < h implies pixel_color_at(
                    pixel_writer.frame(),
                    stride,
                    fmt,
                    x,
                    y,
                ) == spec_console_bg_color() by {
                    lemma_rect_filled_pixel_inside(
                        before,
                        stride,
                        fmt,
                        0,
                        0,
                        w,
                        h,
                        spec_console_bg_color(),
                        h,
                        x,
                        y,
                    );
                }
            }
            self.redraw(pixel_writer);
        }
    }

    /// The cursor's grid position.
    pub fn cursor_pos(&self) -> (p: XY<usize>)
        ensures
            p.x as int == self.cursor_x(),
            p.y as int == self.cursor_y(),
    {
        self.cursor
    }

    /// The number of grid rows.
    pub fn rows(&self) -> (r: usize)
        ensures
            r as int == self.spec_rows(),
    {
        self.resolution.1 / 18
    }

    /// The number of grid columns.
    pub fn columns(&self) -> (c: usize)
        ensures
            c as int == self.spec_cols(),
    {
        self.resolution.0 / 10
    }

    /// The byte recorded in the grid cell at row `r`, column `c`.
    pub fn cell(&self, r: usize, c: usize) -> (b: u8)
        requires
            r < self.grid().len(),
            c < self.grid()[r as int].len(),
        ensures
            b == self.grid()[r as int][c as int],
    {
        self.buf[r][c]
    }

    /// Writes `s` character by character: a newline runs the newline
    /// transition; any other character is recorded and painted at the
    /// cursor when the cursor is left of the last writable column, and
    /// silently dropped at the last column.
    #[verifier::loop_isolation(false)]
    pub fn put_string(&mut self, pixel_writer: &mut PixelWriter, s: &str)
        requires
            old(self).wf(),
            old(pixel_writer).wf(),
            old(self).fits(old(pixel_writer)),
            old(self).renders_on(old(pixel_writer)),
        ensures
            final(self).wf(),
            final(pixel_writer).wf(),
            final(pixel_writer).same_config(old(pixel_writer)),
            final(self).same_layout(old(self)),
            final(self).fits(final(pixel_writer)),
            final(self).renders_on(final(pixel_writer)),
            ((final(self).grid(), final(self).cursor_x(), final(self).cursor_y())
                == put_string_state(
                old(self).spec_rows(),
                old(self).spec_cols(),
                old(self).table(),
                old(self).grid(),
                old(self).cursor_x(),
                old(self).cursor_y(),
                s@,
            )),
    {
        let ghost rows = self.spec_rows();
        let ghost cols = self.spec_cols();
        let ghost table = self.table();
        let ghost g0 = self.grid();
        let ghost cx0 = self.cursor_x();
        let ghost cy0 = self.cursor_y();
        let chars = str_chars(s);
        let n = chars.len();
        proof {
            assert(s@.skip(0) =~= s@);
        }
        for i in 0..n
            invariant
                self.wf(),
                pixel_writer.wf(),
                pixel_writer.same_config(old(pixel_writer)),
                self.same_layout(old(self)),
                self.fits(pixel_writer),
                self.renders_on(pixel_writer),
                put_string_state(
                    rows,
                    cols,
                    table,
                    self.grid(),
                    self.cursor_x(),
                    self.cursor_y(),
                    s@.skip(i as int),
                ) == put_string_state(rows, cols, table, g0, cx0, cy0, s@),
        {
            let c = chars[i];
            let ghost gi = self.grid();
            let ghost cxi = self.cursor_x();
            let ghost cyi = self.cursor_y();
            proof {
                assert(s@.skip(i as int)[0] == s@[i as int]);
            }
            if c == '\n' {
                self.newline(pixel_writer);
            } else {
                self.put_char(pixel_writer, c);
            }
            proof {
                assert(s@.skip(i as int).drop_first() =~= s@.skip(i + 1));
                assert(put_string_state(rows, cols, table, gi, cxi, cyi, s@.skip(i as int))
                    == put_string_state(
                    rows,
                    cols,
                    table,
                    self.grid(),
                    self.cursor_x(),
                    self.cursor_y(),
                    s@.skip(i + 1),
                ));
            }
        }
        proof {
            assert(s@.skip(n as int) =~= Seq::<char>::empty());
        }
    }
}

/// An all-blank row of the given width, as a vector.
fn blank_row_vec(cols: usize) -> (row: Vec<u8>)
    ensures
        row@ == blank_row(cols as int),
{
    let mut row: Vec<u8> = Vec::new();
    while row.len() < cols
        invariant
            row@.len() <= cols,
            forall|c: int| 0 <= c < row@.len() ==> row@[c] == 0u8,
        decreases cols - row@.len(),
    {
        row.push(0);
    }
    proof {
        assert(row@ =~= blank_row(cols as int));
    }
    row
}

/// Writing one printable character from a valid position left of the last
/// column records its code, advances the cursor's column by exactly one,
/// and changes no cell but the one written.
pub proof fn lemma_put_char_advances(
    rows: int,
    cols: int,
    table: Seq<u8>,
    grid: Seq<Seq<u8>>,
    cx: int,
    cy: int,
    c: char,
)
    requires
        state_wf(rows, cols, grid, cx, cy),
        cx < cols - 1,
        c != '\n',
    ensures
        (
        {
            let st = put_char_state(cols, table, grid, cx, cy, c);
            &&& st.1 == cx + 1
            &&& st.2 == cy
            &&& st.0.len() == rows
            &&& (forall|r: int| 0 <= r < rows ==> (#[trigger] st.0[r]).len() == cols)
            &&& st.0[cy][cx] == effective_code(table, c)
            &&& (forall|r: int, cc: int|
                0 <= r < rows && 0 <= cc < cols && !(r == cy && cc == cx)
                    ==> #[trigger] st.0[r][cc] == grid[r][cc])
            &&& state_wf(rows, cols, st.0, cx + 1, cy)
        }
        ),
{
}

/// Writing any character at the last writable column leaves the buffer and
/// the cursor unchanged: the character is dropped, not wrapped.
pub proof fn lemma_put_char_at_last_column(
    cols: int,
    table: Seq<u8>,
    grid: Seq<Seq<u8>>,
    cx: int,
    cy: int,
    c: char,
)
    requires
        cx == cols - 1,
    ensures
        put_char_state(cols, table, grid, cx, cy, c) == (grid, cx, cy),
{
}

/// A newline above the bottom row returns the column to 0, advances the row
/// by one, and preserves the entire buffer content.
pub proof fn lemma_newline_mid(rows: int, cols: int, grid: Seq<Seq<u8>>, cx: int, cy: int)
    requires
        state_wf(rows, cols, grid, cx, cy),
        cy < rows - 1,
    ensures
        newline_state(rows, cols, grid, cy) == (grid, 0int, cy + 1),
        state_wf(rows, cols, grid, 0, cy + 1),
{
}

/// A newline from the bottom row scrolls: row 0 is dropped, every row moves
/// up by one, the new last row is all blank, and the cursor lands on column
/// 0 of the bottom row.
pub proof fn lemma_newline_scrolls(rows: int, cols: int, grid: Seq<Seq<u8>>, cx: int, cy: int)
    requires
        state_wf(rows, cols, grid, cx, cy),
        cy == rows - 1,
    ensures
        (
        {
            let st = newline_state(rows, cols, grid, cy);
            &&& st.1 == 0
            &&& st.2 == rows - 1
            &&& st.0.len() == rows
            &&& (forall|r: int| 0 <= r < rows - 1 ==> #[trigger] st.0[r] == grid[r + 1])
            &&& st.0[rows - 1] == blank_row(cols)
            &&& state_wf(rows, cols, st.0, 0, rows - 1)
        }
        ),
{
    let st = newline_state(rows, cols, grid, cy);
    assert forall|r: int, c: int|
        rows - 1 < r < rows && 0 <= c < cols implies #[trigger] st.0[r][c] == 0 by {}
    assert forall|c: int| 0 <= c < cols implies #[trigger] st.0[rows - 1][c] == 0 by {}
}

} // verus!

use pixel_console::common::Coord;
use pixel_console::common::PixelColor;
use pixel_console::common::XY;
use pixel_console::console::Console;
use pixel_console::font::Font;
use pixel_console::frame_buffer::FrameBuffer;
use pixel_console::frame_buffer::PixelFormat;
use pixel_console::frame_buffer::PixelWriter;
use pixel_console::rect::Rect;
use pixel_console::screen;

fn writer(w: usize, h: usize, stride: usize, fmt: PixelFormat) -> PixelWriter {
    PixelWriter::new(FrameBuffer {
        bytes: vec![0u8; 4 * stride * h],
        resolution: (w, h),
        pixel_format: fmt,
        stride,
    })
}

fn pixel_bytes(writer: &PixelWriter, stride: usize, x: usize, y: usize) -> [u8; 4] {
    let off = (y * stride + x) * 4;
    [
        writer.byte_at(off),
        writer.byte_at(off + 1),
        writer.byte_at(off + 2),
        writer.byte_at(off + 3),
    ]
}

#[test]
fn draw_pixel_rgb_byte_order() {
    let mut w = writer(3, 2, 5, PixelFormat::Rgb);
    w.draw_pixel(XY::new(1, 1), PixelColor { r: 1, g: 2, b: 3 });
    assert_eq!(pixel_bytes(&w, 5, 1, 1), [1, 2, 3, 0]);
    assert_eq!(pixel_bytes(&w, 5, 0, 1), [0, 0, 0, 0]);
    assert_eq!(pixel_bytes(&w, 5, 2, 1), [0, 0, 0, 0]);
}

#[test]
fn draw_pixel_bgr_byte_order() {
    let mut w = writer(3, 2, 3, PixelFormat::Bgr);
    w.draw_pixel(XY::new(2, 0), PixelColor { r: 10, g: 20, b: 30 });
    assert_eq!(pixel_bytes(&w, 3, 2, 0), [30, 20, 10, 0]);
}

#[test]
fn writer_reports_its_resolution() {
    let w = writer(3, 2, 5, PixelFormat::Rgb);
    assert_eq!(w.width(), 3);
    assert_eq!(w.height(), 2);
}

#[test]
fn fill_rect_paints_exactly_the_rectangle() {
    let mut w = writer(4, 4, 6, PixelFormat::Rgb);
    let color = PixelColor { r: 9, g: 8, b: 7 };
    screen::fill_rect(&mut w, XY::new(1, 1), XY::new(2, 2), color);
    for y in 0..4 {
        for x in 0..4 {
            let inside = (1..3).contains(&x) && (1..3).contains(&y);
            let expected = if inside { [9, 8, 7, 0] } else { [0, 0, 0, 0] };
            assert_eq!(pixel_bytes(&w, 6, x, y), expected, "pixel ({}, {})", x, y);
        }
    }
}

#[test]
fn screen_init_paints_the_desktop_background() {
    let mut w = writer(3, 2, 3, PixelFormat::Bgr);
    screen::init(&mut w);
    for y in 0..2 {
        for x in 0..3 {
            // desktop background, in BGR byte order
            assert_eq!(pixel_bytes(&w, 3, x, y), [237, 118, 45, 0]);
        }
    }
}

#[test]
fn flush_twice_gives_the_same_frame_as_once() {
    let table = vec![0u8; 4096];
    let mut w = writer(30, 36, 32, PixelFormat::Rgb);
    // leave recognizable residue in the frame first
    w.draw_pixel(XY::new(7, 5), PixelColor { r: 200, g: 100, b: 50 });
    let console = Console::new((30, 36), Font::new(&table));
    console.flush(&mut w);
    let once: Vec<u8> = (0..4 * 32 * 36).map(|i| w.byte_at(i)).collect();
    console.flush(&mut w);
    let twice: Vec<u8> = (0..4 * 32 * 36).map(|i| w.byte_at(i)).collect();
    assert_eq!(once, twice);
    // and every visible pixel is the background
    for y in 0..36 {
        for x in 0..30 {
            assert_eq!(pixel_bytes(&w, 32, x, y), [0, 0, 0, 0]);
        }
    }
}

#[test]
fn draw_char_paints_the_glyph_block() {
    // glyph 'T': a full top row, nothing below
    let mut table = vec![0u8; 4096];
    table[(b'T' as usize) * 16] = 0xff;
    let font = Font::new(&table);
    let mut w = writer(20, 20, 20, PixelFormat::Rgb);
    let fg = PixelColor { r: 255, g: 255, b: 255 };
    let bg = PixelColor { r: 1, g: 1, b: 1 };
    font.draw_char(&mut w, XY::new(2, 3), fg, bg, 'T');
    // the first bitmap row is all foreground
    for dx in 0..8 {
        assert_eq!(pixel_bytes(&w, 20, 2 + dx, 3), [255, 255, 255, 0]);
    }
    // the second bitmap row is all background
    for dx in 0..8 {
        assert_eq!(pixel_bytes(&w, 20, 2 + dx, 4), [1, 1, 1, 0]);
    }
    // outside the 8-pixel-wide block nothing was painted
    assert_eq!(pixel_bytes(&w, 20, 10, 3), [0, 0, 0, 0]);
    assert_eq!(pixel_bytes(&w, 20, 1, 3), [0, 0, 0, 0]);
}

#[test]
fn draw_char_most_significant_bit_is_leftmost() {
    // one glyph row 0b1000_0001: leftmost and rightmost pixels set
    let mut table = vec![0u8; 4096];
    table[(b'E' as usize) * 16 + 2] = 0x81;
    let font = Font::new(&table);
    let mut w = writer(10, 16, 10, PixelFormat::Rgb);
    let fg = PixelColor { r: 50, g: 60, b: 70 };
    let bg = PixelColor { r: 0, g: 0, b: 0 };
    font.draw_char(&mut w, XY::new(0, 0), fg, bg, 'E');
    assert_eq!(pixel_bytes(&w, 10, 0, 2), [50, 60, 70, 0]);
    assert_eq!(pixel_bytes(&w, 10, 7, 2), [50, 60, 70, 0]);
    assert_eq!(pixel_bytes(&w, 10, 1, 2), [0, 0, 0, 0]);
    assert_eq!(pixel_bytes(&w, 10, 6, 2), [0, 0, 0, 0]);
}

#[test]
fn unknown_character_paints_the_placeholder_glyph() {
    let mut table = vec![0u8; 4096];
    table[(b'?' as usize) * 16 + 1] = 0x80;
    let font = Font::new(&table);
    let mut w = writer(10, 16, 10, PixelFormat::Rgb);
    let fg = PixelColor { r: 9, g: 9, b: 9 };
    let bg = PixelColor { r: 0, g: 0, b: 0 };
    font.draw_char(&mut w, XY::new(0, 0), fg, bg, '\u{0101}');
    assert_eq!(pixel_bytes(&w, 10, 0, 1), [9, 9, 9, 0]);
}

#[test]
fn draw_str_advances_one_cell_per_character() {
    // 'A' has its top-left pixel set; 'B' its second row's leftmost pixel
    let mut table = vec![0u8; 4096];
    table[(b'A' as usize) * 16] = 0x80;
    table[(b'B' as usize) * 16 + 1] = 0x80;
    let font = Font::new(&table);
    let mut w = writer(30, 16, 30, PixelFormat::Rgb);
    let fg = PixelColor { r: 255, g: 0, b: 0 };
    let bg = PixelColor { r: 0, g: 0, b: 0 };
    font.draw_str(&mut w, XY::new(0, 0), fg, bg, "AB");
    assert_eq!(pixel_bytes(&w, 30, 0, 0), [255, 0, 0, 0]);
    assert_eq!(pixel_bytes(&w, 30, 10, 1), [255, 0, 0, 0]);
    assert_eq!(pixel_bytes(&w, 30, 10, 0), [0, 0, 0, 0]);
}

#[test]
fn console_paints_what_it_records() {
    // 'a' gets a recognizable one-pixel glyph
    let mut table = vec![0u8; 4096];
    table[(b'a' as usize) * 16] = 0x80;
    let font = Font::new(&table);
    let mut w = writer(800, 450, 800, PixelFormat::Rgb);
    let mut console = Console::new((800, 450), font);
    console.flush(&mut w);
    console.put_string(&mut w, "\na");
    // the glyph block of cell (1, 0) starts at pixel (0, 18)
    assert_eq!(pixel_bytes(&w, 800, 0, 18), [255, 255, 255, 0]);
    assert_eq!(pixel_bytes(&w, 800, 1, 18), [0, 0, 0, 0]);
}

#[test]
fn frame_buffer_reports_its_resolution() {
    let fb = FrameBuffer {
        bytes: vec![0u8; 4 * 7 * 5],
        resolution: (6, 5),
        pixel_format: PixelFormat::Bgr,
        stride: 7,
    };
    assert_eq!(fb.width(), 6);
    assert_eq!(fb.height(), 5);
}

#[test]
fn console_on_bgr_writer_paints_in_bgr_order() {
    let mut table = vec![0u8; 4096];
    table[(b'a' as usize) * 16] = 0x80;
    let font = Font::new(&table);
    // stride wider than the resolution, as real scanlines can be
    let mut w = writer(20, 18, 24, PixelFormat::Bgr);
    let mut console = Console::new((20, 18), font);
    console.flush(&mut w);
    console.put_string(&mut w, "a");
    // the glyph's top-left pixel is white in any order; a background pixel
    // next to it stays black
    assert_eq!(pixel_bytes(&w, 24, 0, 0), [255, 255, 255, 0]);
    assert_eq!(pixel_bytes(&w, 24, 1, 0), [0, 0, 0, 0]);
}

#[test]
fn rect_containment() {
    let r = Rect::new(2, 3, 4, 5);
    assert!(r.is_contained(XY::new(2, 3)));
    assert!(r.is_contained(XY::new(5, 7)));
    assert!(!r.is_contained(XY::new(6, 3)));
    assert!(!r.is_contained(XY::new(2, 8)));
    assert!(!r.is_contained(XY::new(1, 3)));
    assert!(!r.is_contained(XY::new(2, 2)));
}

#[test]
fn empty_rect_contains_nothing() {
    let r = Rect::new(0, 0, 0, 0);
    assert!(!r.is_contained(XY::new(0, 0)));
}

#[test]
fn coordinate_pairs_carry_their_components() {
    let p = XY::new(4usize, 9usize);
    assert_eq!(p.x, 4);
    assert_eq!(p.y, 9);
    let q: Coord<isize> = Coord(-3, 7);
    assert_eq!(q.0, -3);
    assert_eq!(q.1, 7);
}

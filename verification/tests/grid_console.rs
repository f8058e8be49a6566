use pixel_console::console::Console;
use pixel_console::font::Font;
use pixel_console::frame_buffer::FrameBuffer;
use pixel_console::frame_buffer::PixelFormat;
use pixel_console::frame_buffer::PixelWriter;

/// A glyph table in the usual shape: 256 glyphs of 16 bytes each. Glyph `g`
/// gets a recognizable bitmap: every row holds the byte `g`.
fn test_table() -> Vec<u8> {
    let mut t = vec![0u8; 4096];
    for g in 0..256 {
        for dy in 0..16 {
            t[g * 16 + dy] = g as u8;
        }
    }
    t
}

fn writer_800x450() -> PixelWriter {
    PixelWriter::new(FrameBuffer {
        bytes: vec![0u8; 4 * 800 * 450],
        resolution: (800, 450),
        pixel_format: PixelFormat::Rgb,
        stride: 800,
    })
}

/// A console of 80 columns by 25 rows, flushed onto its writer.
fn console_80x25(table: &[u8]) -> (Console<'_>, PixelWriter) {
    let mut writer = writer_800x450();
    let console = Console::new((800, 450), Font::new(table));
    console.flush(&mut writer);
    (console, writer)
}

#[test]
fn grid_dimensions_and_blank_start() {
    let table = test_table();
    let (console, _writer) = console_80x25(&table);
    assert_eq!(console.rows(), 25);
    assert_eq!(console.columns(), 80);
    assert_eq!(console.cursor_pos().x, 0);
    assert_eq!(console.cursor_pos().y, 0);
    for r in 0..25 {
        for c in 0..80 {
            assert_eq!(console.cell(r, c), 0);
        }
    }
}

#[test]
fn one_char_advances_cursor_and_touches_one_cell() {
    let table = test_table();
    let (mut console, mut writer) = console_80x25(&table);
    console.put_string(&mut writer, "a");
    assert_eq!(console.cursor_pos().x, 1);
    assert_eq!(console.cursor_pos().y, 0);
    for r in 0..25 {
        for c in 0..80 {
            let expected = if r == 0 && c == 0 { b'a' } else { 0 };
            assert_eq!(console.cell(r, c), expected);
        }
    }
}

#[test]
fn one_char_mid_grid_advances_cursor_by_one() {
    let table = test_table();
    let (mut console, mut writer) = console_80x25(&table);
    console.put_string(&mut writer, "xy\nz");
    assert_eq!(console.cursor_pos().x, 1);
    assert_eq!(console.cursor_pos().y, 1);
    console.put_string(&mut writer, "w");
    assert_eq!(console.cursor_pos().x, 2);
    assert_eq!(console.cursor_pos().y, 1);
    assert_eq!(console.cell(1, 0), b'z');
    assert_eq!(console.cell(1, 1), b'w');
    assert_eq!(console.cell(0, 0), b'x');
    assert_eq!(console.cell(0, 1), b'y');
}

#[test]
fn char_at_last_column_is_dropped() {
    let table = test_table();
    let (mut console, mut writer) = console_80x25(&table);
    // drive the cursor to the last writable column
    let fill: String = std::iter::repeat('a').take(79).collect();
    console.put_string(&mut writer, &fill);
    assert_eq!(console.cursor_pos().x, 79);
    let before: Vec<u8> = (0..80).map(|c| console.cell(0, c)).collect();
    console.put_string(&mut writer, "b");
    assert_eq!(console.cursor_pos().x, 79);
    assert_eq!(console.cursor_pos().y, 0);
    let after: Vec<u8> = (0..80).map(|c| console.cell(0, c)).collect();
    assert_eq!(before, after);
}

#[test]
fn newline_mid_screen_moves_cursor_keeps_buffer() {
    let table = test_table();
    let (mut console, mut writer) = console_80x25(&table);
    console.put_string(&mut writer, "ab");
    console.put_string(&mut writer, "\n");
    assert_eq!(console.cursor_pos().x, 0);
    assert_eq!(console.cursor_pos().y, 1);
    assert_eq!(console.cell(0, 0), b'a');
    assert_eq!(console.cell(0, 1), b'b');
    for r in 1..25 {
        for c in 0..80 {
            assert_eq!(console.cell(r, c), 0);
        }
    }
}

#[test]
fn newline_at_bottom_row_scrolls() {
    let table = test_table();
    let (mut console, mut writer) = console_80x25(&table);
    // one distinct character per row, all the way to the bottom row
    for i in 0u8..24 {
        let line = format!("{}\n", (b'A' + i) as char);
        console.put_string(&mut writer, &line);
    }
    console.put_string(&mut writer, "Y");
    assert_eq!(console.cursor_pos().y, 24);
    // the newline from the bottom row drops row 0, shifts the rest up, and
    // blanks the last row
    console.put_string(&mut writer, "\n");
    assert_eq!(console.cursor_pos().x, 0);
    assert_eq!(console.cursor_pos().y, 24);
    for r in 0..23 {
        assert_eq!(console.cell(r, 0), b'A' + 1 + r as u8);
        for c in 1..80 {
            assert_eq!(console.cell(r, c), 0);
        }
    }
    assert_eq!(console.cell(23, 0), b'Y');
    for c in 0..80 {
        assert_eq!(console.cell(24, c), 0);
    }
}

#[test]
fn round_trip_single_row_string() {
    let table = test_table();
    let (mut console, mut writer) = console_80x25(&table);
    let text = "hello, world";
    console.put_string(&mut writer, text);
    let mut read_back = String::new();
    let mut c = 0;
    while console.cell(0, c) != 0 {
        read_back.push(console.cell(0, c) as char);
        c += 1;
    }
    assert_eq!(read_back, text);
    assert_eq!(console.cursor_pos().x, text.len());
    assert_eq!(console.cursor_pos().y, 0);
    for rest in c..80 {
        assert_eq!(console.cell(0, rest), 0);
    }
}

#[test]
fn eighty_char_line_drops_the_last_character() {
    let table = test_table();
    let (mut console, mut writer) = console_80x25(&table);
    let mut line: String = std::iter::repeat('a').take(79).collect();
    line.push('b');
    assert_eq!(line.len(), 80);
    console.put_string(&mut writer, &line);
    for c in 0..79 {
        assert_eq!(console.cell(0, c), b'a');
    }
    assert_eq!(console.cell(0, 79), 0);
    assert_eq!(console.cursor_pos().x, 79);
    assert_eq!(console.cursor_pos().y, 0);
}

#[test]
fn twenty_five_lines_scroll_once() {
    let table = test_table();
    let (mut console, mut writer) = console_80x25(&table);
    // newline-terminated single-character lines until one scroll has
    // happened: the line of 'y' is written on the bottom row and its
    // newline triggers the scroll
    for i in 0u8..25 {
        let line = format!("{}\n", (b'a' + i) as char);
        console.put_string(&mut writer, &line);
    }
    assert_eq!(console.cell(0, 0), b'b');
    assert_eq!(console.cell(23, 0), b'y');
    for c in 0..80 {
        assert_eq!(console.cell(24, c), 0);
    }
    assert_eq!(console.cursor_pos().x, 0);
    assert_eq!(console.cursor_pos().y, 24);
}

#[test]
fn non_byte_character_is_recorded_as_placeholder() {
    let table = test_table();
    let (mut console, mut writer) = console_80x25(&table);
    console.put_string(&mut writer, "\u{0101}");
    assert_eq!(console.cell(0, 0), b'?');
    assert_eq!(console.cursor_pos().x, 1);
}

#[test]
fn glyph_code_picks_own_code_or_placeholder() {
    let table = test_table();
    let font = Font::new(&table);
    assert_eq!(font.glyph_code('A'), b'A');
    assert_eq!(font.glyph_code('?'), b'?');
    assert_eq!(font.glyph_code('\u{0101}'), b'?');
    assert_eq!(font.glyph_code('\0'), b'?');
}

#[test]
fn char_size_is_the_padded_cell() {
    let table = test_table();
    let font = Font::new(&table);
    let size = font.char_size();
    assert_eq!(size.x, 10);
    assert_eq!(size.y, 18);
}

use test_os::screen::{filter_byte, Color, ColorCode, ScreenChar};
use test_os::vga_buffer::{InputBuffer, UpBuffer};
use test_os::vga_buffer::{buffer_clear, buffer_copy, print_colored, Writer};
use test_os::{BUFFER_HEIGHT, BUFFER_WIDTH, INPUT_BUFFER_SIZE, SUBSTITUTE_GLYPH};

// A fresh writer starts with the logical write row at zero; the first
// write re-normalizes it to row two, so output begins there.
const FIRST_ROW: usize = 2;

fn grid_snapshot(w: &Writer) -> Vec<u8> {
    let mut cells = Vec::new();
    for r in 0..BUFFER_HEIGHT {
        for c in 0..BUFFER_WIDTH {
            cells.push(w.char_at(r, c));
        }
    }
    cells
}

#[test]
fn write_lands_on_first_usable_row() {
    let mut w = Writer::new();
    w.write_byte(b'H');
    w.write_byte(b'i');
    assert_eq!(w.char_at(FIRST_ROW, 0), b'H');
    assert_eq!(w.char_at(FIRST_ROW, 1), b'i');
}

#[test]
fn unprintable_bytes_render_substitute_glyph() {
    let mut w = Writer::new();
    w.write_byte(0x01);
    w.write_byte(0x1f);
    w.write_byte(0x7f);
    assert_eq!(w.char_at(FIRST_ROW, 0), SUBSTITUTE_GLYPH);
    assert_eq!(w.char_at(FIRST_ROW, 1), SUBSTITUTE_GLYPH);
    assert_eq!(w.char_at(FIRST_ROW, 2), SUBSTITUTE_GLYPH);
}

#[test]
fn filter_is_idempotent_on_the_glyph() {
    assert_eq!(filter_byte(0x00), SUBSTITUTE_GLYPH);
    assert_eq!(filter_byte(SUBSTITUTE_GLYPH), SUBSTITUTE_GLYPH);
    assert_eq!(filter_byte(b'A'), b'A');
    assert_eq!(filter_byte(b' '), b' ');
    assert_eq!(filter_byte(b'~'), b'~');
    assert_eq!(filter_byte(0x7f), SUBSTITUTE_GLYPH);
    let mut w = Writer::new();
    w.write_byte(SUBSTITUTE_GLYPH);
    assert_eq!(w.char_at(FIRST_ROW, 0), SUBSTITUTE_GLYPH);
}

#[test]
fn column_wraps_at_grid_width() {
    let mut w = Writer::new();
    for _ in 0..BUFFER_WIDTH {
        w.write_byte(b'a');
    }
    w.write_byte(b'b');
    assert_eq!(w.char_at(FIRST_ROW, BUFFER_WIDTH - 1), b'a');
    assert_eq!(w.char_at(FIRST_ROW + 1, 0), b'b');
}

#[test]
fn newline_moves_to_next_row() {
    let mut w = Writer::new();
    w.write_byte(b'x');
    w.write_byte(b'\n');
    w.write_byte(b'y');
    assert_eq!(w.char_at(FIRST_ROW, 0), b'x');
    assert_eq!(w.char_at(FIRST_ROW + 1, 0), b'y');
}

#[test]
fn write_string_filters_every_byte() {
    let mut w = Writer::new();
    w.write_string("ok\u{107}");
    assert_eq!(w.char_at(FIRST_ROW, 0), b'o');
    assert_eq!(w.char_at(FIRST_ROW, 1), b'k');
    // A two-byte UTF-8 character renders as two substitute glyphs.
    assert_eq!(w.char_at(FIRST_ROW, 2), SUBSTITUTE_GLYPH);
    assert_eq!(w.char_at(FIRST_ROW, 3), SUBSTITUTE_GLYPH);
}

#[test]
fn backspace_blanks_previous_cell() {
    let mut w = Writer::new();
    w.write_byte(b'a');
    w.write_byte(b'b');
    w.backspace();
    assert_eq!(w.char_at(FIRST_ROW, 1), b' ');
    w.write_byte(b'c');
    assert_eq!(w.char_at(FIRST_ROW, 1), b'c');
}

#[test]
fn echo_buffer_stops_at_capacity_keeping_earliest() {
    let mut w = Writer::new();
    for i in 0..(INPUT_BUFFER_SIZE + 20) {
        w.write_byte(b'0' + (i % 10) as u8);
    }
    let mut buf = [0u8; 256];
    let len = buffer_copy(&w, &mut buf);
    assert_eq!(len, INPUT_BUFFER_SIZE);
    for i in 0..INPUT_BUFFER_SIZE {
        assert_eq!(buf[i], b'0' + (i % 10) as u8);
    }
}

#[test]
fn buffer_clear_resets_echo_but_not_grid() {
    let mut w = Writer::new();
    w.write_byte(b'q');
    buffer_clear(&mut w);
    let mut buf = [0u8; 16];
    assert_eq!(buffer_copy(&w, &mut buf), 0);
    assert_eq!(w.char_at(FIRST_ROW, 0), b'q');
}

#[test]
fn get_buffer_reads_typed_line_and_drops_invalid() {
    let mut w = Writer::new();
    w.write_byte(b'h');
    w.write_byte(b'i');
    assert_eq!(w.get_buffer(), "hi");
    // An unprintable byte echoes the substitute glyph, which is not
    // valid UTF-8, so the line reads as empty.
    w.write_byte(0x01);
    assert_eq!(w.get_buffer(), "");
}

#[test]
fn scroll_up_then_down_restores_grid() {
    let mut w = Writer::new();
    w.write_byte(b'A');
    w.write_byte(b'\n');
    w.write_byte(b'\n');
    // Two newlines leave two rows in the down-history; one scroll up
    // fills the up-history.
    w.scroll_up();
    let before = grid_snapshot(&w);
    w.scroll_up();
    w.scroll_down();
    let after = grid_snapshot(&w);
    assert_eq!(before, after);
}

#[test]
fn clear_screen_blanks_everything() {
    let mut w = Writer::new();
    w.write_string("some text\nmore");
    w.clear_screen();
    for r in 0..BUFFER_HEIGHT {
        for c in 0..BUFFER_WIDTH {
            assert_eq!(w.char_at(r, c), b' ');
        }
    }
    let mut buf = [0u8; 16];
    assert_eq!(buffer_copy(&w, &mut buf), 0);
}

#[test]
fn colored_output_restores_default_color() {
    let mut w = Writer::new();
    print_colored(&mut w, b"ok", Color::Green, Color::Black);
    let cell = w.cell_at(FIRST_ROW, 0);
    assert_eq!(cell.ascii_character, b'o');
    // Green on black packs to 2.
    assert_eq!(cell.color_code.0, 2);
    w.write_byte(b'!');
    // White on black packs to 15.
    assert_eq!(w.cell_at(FIRST_ROW, 2).color_code.0, 15);
}

#[test]
fn set_color_applies_to_later_writes() {
    let mut w = Writer::new();
    w.set_color(Color::LightCyan, Color::Blue);
    w.write_byte(b'z');
    // Light cyan (11) on blue (1) packs to 1 * 16 + 11.
    assert_eq!(w.cell_at(FIRST_ROW, 0).color_code.0, 16 + 11);
}

#[test]
fn scrollback_history_is_bounded() {
    let mut up = UpBuffer::new(3);
    for i in 0..5u8 {
        let row = vec![
            ScreenChar { ascii_character: b'0' + i, color_code: ColorCode(15) };
            BUFFER_WIDTH
        ];
        up.push_line(row);
    }
    // Capacity three: the two oldest rows were evicted, newest pops first.
    let newest = up.pop_line().unwrap();
    assert_eq!(newest[0].ascii_character, b'4');
    let middle = up.pop_line().unwrap();
    assert_eq!(middle[0].ascii_character, b'3');
    let oldest = up.pop_line().unwrap();
    assert_eq!(oldest[0].ascii_character, b'2');
    assert!(up.is_empty());
    assert!(up.pop_line().is_none());
}

#[test]
fn drifted_write_row_is_reclamped_before_writing() {
    let mut w = Writer::new();
    w.write_byte(b'A');
    // Asynchronous scrolling can pull the logical write row below the
    // top margin; the next write re-normalizes it by scrolling.
    w.minus_write_row();
    w.minus_write_row();
    w.minus_write_row();
    w.write_byte(b'B');
    assert_eq!(w.char_at(5, 0), b'A');
    assert_eq!(w.char_at(2, 1), b'B');
}

#[test]
fn input_buffer_drops_excess_and_clears() {
    let mut b = InputBuffer::new();
    for i in 0..120u8 {
        b.push_byte(i);
    }
    assert_eq!(b.len(), INPUT_BUFFER_SIZE);
    assert_eq!(b.byte_at(0), 0);
    assert_eq!(b.byte_at(99), 99);
    b.clear();
    assert_eq!(b.len(), 0);
}

#[test]
fn input_buffer_reads_back_as_text() {
    let mut b = InputBuffer::new();
    b.push_byte(b'o');
    b.push_byte(b'k');
    assert_eq!(b.as_str(), "ok");
}

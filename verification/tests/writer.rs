use vga_console::vga_buffer::{Color, ColorCode, Writer, BUFFER_HEIGHT, BUFFER_WIDTH};

#[test]
fn fresh_writer_is_blank_at_column_0() {
    let attr = ColorCode::new(Color::Yellow, Color::Black);
    let w = Writer::new(attr);
    assert_eq!(w.column_position(), 0);
    assert_eq!(w.color_code(), attr);
    for row in 0..BUFFER_HEIGHT {
        for col in 0..BUFFER_WIDTH {
            let cell = w.char_at(row, col);
            assert_eq!(cell.ascii_character, 0x20);
            assert_eq!(cell.color_code, attr);
        }
    }
}

#[test]
fn hello_fills_bottom_row() {
    let attr = ColorCode::new(Color::Yellow, Color::Black);
    let mut w = Writer::new(attr);
    w.write_string("Hello!");
    for (i, &b) in b"Hello!".iter().enumerate() {
        let cell = w.char_at(BUFFER_HEIGHT - 1, i);
        assert_eq!(cell.ascii_character, b);
        assert_eq!(cell.color_code, attr);
    }
    assert_eq!(w.column_position(), 6);
    for col in 6..BUFFER_WIDTH {
        assert_eq!(w.char_at(BUFFER_HEIGHT - 1, col).ascii_character, 0x20);
    }
    for row in 0..BUFFER_HEIGHT - 1 {
        for col in 0..BUFFER_WIDTH {
            assert_eq!(w.char_at(row, col).ascii_character, 0x20);
        }
    }
}

#[test]
fn printable_bytes_pass_unchanged() {
    for byte in 0x20..=0x7eu8 {
        let mut w = Writer::new(ColorCode::new(Color::White, Color::Black));
        let s = String::from_utf8(vec![byte]).unwrap();
        w.write_string(&s);
        assert_eq!(w.char_at(BUFFER_HEIGHT - 1, 0).ascii_character, byte);
    }
}

#[test]
fn unprintable_bytes_become_placeholder() {
    for byte in [0x00u8, 0x01, 0x07, 0x1f, 0x7f] {
        let mut w = Writer::new(ColorCode::new(Color::White, Color::Black));
        let s = String::from_utf8(vec![byte]).unwrap();
        w.write_string(&s);
        let stored = w.char_at(BUFFER_HEIGHT - 1, 0).ascii_character;
        assert_eq!(stored, 0xfe);
        assert_ne!(stored, byte);
    }
}

#[test]
fn multibyte_text_becomes_placeholders_bytewise() {
    // a two-byte character: neither of its bytes is printable
    let mut w = Writer::new(ColorCode::new(Color::White, Color::Black));
    w.write_string("\u{e9}");
    assert_eq!(w.char_at(BUFFER_HEIGHT - 1, 0).ascii_character, 0xfe);
    assert_eq!(w.char_at(BUFFER_HEIGHT - 1, 1).ascii_character, 0xfe);
    assert_eq!(w.column_position(), 2);
}

#[test]
fn write_byte_stores_any_value_verbatim() {
    let mut w = Writer::new(ColorCode::new(Color::White, Color::Black));
    w.write_byte(0x01);
    w.write_byte(0xfe);
    w.write_byte(0xff);
    assert_eq!(w.char_at(BUFFER_HEIGHT - 1, 0).ascii_character, 0x01);
    assert_eq!(w.char_at(BUFFER_HEIGHT - 1, 1).ascii_character, 0xfe);
    assert_eq!(w.char_at(BUFFER_HEIGHT - 1, 2).ascii_character, 0xff);
    assert_eq!(w.column_position(), 3);
}

#[test]
fn newline_resets_column_and_writes_no_cell() {
    let mut w = Writer::new(ColorCode::new(Color::Yellow, Color::Black));
    w.write_string("ab");
    assert_eq!(w.column_position(), 2);
    w.write_string("\n");
    assert_eq!(w.column_position(), 0);
    // the written text moved up one row
    assert_eq!(w.char_at(BUFFER_HEIGHT - 2, 0).ascii_character, b'a');
    assert_eq!(w.char_at(BUFFER_HEIGHT - 2, 1).ascii_character, b'b');
    // the bottom row is blank again, and no cell anywhere holds the newline code
    for row in 0..BUFFER_HEIGHT {
        for col in 0..BUFFER_WIDTH {
            let glyph = w.char_at(row, col).ascii_character;
            assert_ne!(glyph, 0x0a);
            if row == BUFFER_HEIGHT - 1 {
                assert_eq!(glyph, 0x20);
            }
        }
    }
}

#[test]
fn eighty_bytes_fill_row_without_scroll_and_81st_scrolls_once() {
    let attr = ColorCode::new(Color::Yellow, Color::Black);
    let mut w = Writer::new(attr);
    // leave a marker one row above the bottom so a scroll is observable
    w.write_string("X\n");
    assert_eq!(w.char_at(BUFFER_HEIGHT - 2, 0).ascii_character, b'X');
    let eighty = "A".repeat(BUFFER_WIDTH);
    w.write_string(&eighty);
    // row filled left to right, no scroll: the marker stayed in place
    assert_eq!(w.column_position(), BUFFER_WIDTH);
    for col in 0..BUFFER_WIDTH {
        assert_eq!(w.char_at(BUFFER_HEIGHT - 1, col).ascii_character, b'A');
    }
    assert_eq!(w.char_at(BUFFER_HEIGHT - 2, 0).ascii_character, b'X');
    // the 81st byte triggers exactly one scroll, then lands at column 0
    w.write_byte(b'B');
    assert_eq!(w.column_position(), 1);
    assert_eq!(w.char_at(BUFFER_HEIGHT - 1, 0).ascii_character, b'B');
    for col in 1..BUFFER_WIDTH {
        assert_eq!(w.char_at(BUFFER_HEIGHT - 1, col).ascii_character, 0x20);
    }
    for col in 0..BUFFER_WIDTH {
        assert_eq!(w.char_at(BUFFER_HEIGHT - 2, col).ascii_character, b'A');
    }
    assert_eq!(w.char_at(BUFFER_HEIGHT - 3, 0).ascii_character, b'X');
    assert_eq!(w.char_at(BUFFER_HEIGHT - 4, 0).ascii_character, 0x20);
}

#[test]
fn scroll_shifts_every_row_up_and_blanks_the_bottom() {
    let attr = ColorCode::new(Color::LightGreen, Color::Black);
    let mut w = Writer::new(attr);
    // give many rows distinct content
    for i in 0..10u8 {
        let line = String::from_utf8(vec![b'a' + i, b'0' + i]).unwrap();
        w.write_string(&line);
        w.write_string("\n");
    }
    let mut before = [[0u8; BUFFER_WIDTH]; BUFFER_HEIGHT];
    for row in 0..BUFFER_HEIGHT {
        for col in 0..BUFFER_WIDTH {
            before[row][col] = w.char_at(row, col).ascii_character;
        }
    }
    w.write_byte(0x0a);
    for row in 0..BUFFER_HEIGHT - 1 {
        for col in 0..BUFFER_WIDTH {
            assert_eq!(w.char_at(row, col).ascii_character, before[row + 1][col]);
        }
    }
    for col in 0..BUFFER_WIDTH {
        let cell = w.char_at(BUFFER_HEIGHT - 1, col);
        assert_eq!(cell.ascii_character, 0x20);
        assert_eq!(cell.color_code, attr);
    }
}

#[test]
fn twenty_five_newlines_scroll_everything_off() {
    let mut w = Writer::new(ColorCode::new(Color::Yellow, Color::Black));
    w.write_string("seed!");
    for _ in 0..BUFFER_HEIGHT {
        w.write_string("\n");
    }
    assert_eq!(w.column_position(), 0);
    for row in 0..BUFFER_HEIGHT {
        for col in 0..BUFFER_WIDTH {
            assert_eq!(w.char_at(row, col).ascii_character, 0x20);
        }
    }
}

#[test]
fn written_cells_carry_the_current_attribute() {
    let attr = ColorCode::new(Color::White, Color::Blue);
    let mut w = Writer::new(attr);
    w.write_string("Z\u{1}");
    assert_eq!(w.char_at(BUFFER_HEIGHT - 1, 0).color_code, attr);
    assert_eq!(w.char_at(BUFFER_HEIGHT - 1, 1).color_code, attr);
    assert_eq!(w.char_at(BUFFER_HEIGHT - 1, 0).color_code.0, 0x1f);
}

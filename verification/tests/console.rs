use smol_os::vga_buffer::{Color, ColorCode, Writer, BUFFER_HEIGHT, BUFFER_WIDTH, MIRROR_BYTES};

#[test]
fn color_code_packs_background_high_foreground_low() {
    assert_eq!(ColorCode::new(Color::White, Color::Black).0, 15);
    assert_eq!(ColorCode::new(Color::Yellow, Color::Blue).0, 0x1e);
    assert_eq!(ColorCode::new(Color::White, Color::LightGray).0, 0x7f);
    assert_eq!(ColorCode::new(Color::Black, Color::Black).0, 0);
}

#[test]
fn palette_numbering_matches_the_device() {
    let palette = [
        Color::Black,
        Color::Blue,
        Color::Green,
        Color::Cyan,
        Color::Red,
        Color::Magenta,
        Color::Brown,
        Color::LightGray,
        Color::DarkGray,
        Color::LightBlue,
        Color::LightGreen,
        Color::LightCyan,
        Color::LightRed,
        Color::Pink,
        Color::Yellow,
        Color::White,
    ];
    for (i, color) in palette.iter().enumerate() {
        assert_eq!(ColorCode::new(*color, Color::Black).0 as usize, i);
        assert_eq!(ColorCode::new(Color::Black, *color).0 as usize, i << 4);
    }
}

#[test]
fn fresh_console_is_blank_and_mirrored() {
    let w = Writer::new();
    assert_eq!(w.selected_index(), 0);
    for screen in 0..2 {
        assert_eq!(w.cursor(screen), 0);
        for row in 0..BUFFER_HEIGHT {
            for col in 0..BUFFER_WIDTH {
                let cell = w.screen_char(screen, row, col);
                assert_eq!(cell.ascii_character, b' ');
                assert_eq!(cell.color_code.0, if screen == 0 { 15 } else { 0x7f });
            }
        }
    }
    for i in 0..MIRROR_BYTES {
        assert_eq!(w.buffer_byte(i), if i % 2 == 0 { b' ' } else { 15 });
    }
}

#[test]
fn default_console_matches_new() {
    let w = Writer::default();
    assert_eq!(w.selected_index(), 0);
    assert_eq!(w.cursor(0), 0);
    assert_eq!(w.screen_char(0, 0, 0).ascii_character, b' ');
    assert_eq!(w.screen_char(1, 0, 0).color_code.0, 0x7f);
}

#[test]
fn full_line_wraps_only_on_next_character() {
    let mut w = Writer::new();
    let line = "A".repeat(BUFFER_WIDTH);
    w.write(&line, Color::White, Color::Black, 0);
    // Conceptually at the right edge, but no shift has happened yet.
    assert_eq!(w.cursor(0), BUFFER_WIDTH);
    for col in 0..BUFFER_WIDTH {
        assert_eq!(w.screen_char(0, BUFFER_HEIGHT - 1, col).ascii_character, b'A');
        assert_eq!(w.screen_char(0, BUFFER_HEIGHT - 2, col).ascii_character, b' ');
    }
    // The next printable character triggers exactly one shift.
    w.write("B", Color::White, Color::Black, 0);
    assert_eq!(w.cursor(0), 1);
    for col in 0..BUFFER_WIDTH {
        assert_eq!(w.screen_char(0, BUFFER_HEIGHT - 2, col).ascii_character, b'A');
        assert_eq!(w.screen_char(0, BUFFER_HEIGHT - 3, col).ascii_character, b' ');
    }
    assert_eq!(w.screen_char(0, BUFFER_HEIGHT - 1, 0).ascii_character, b'B');
    assert_eq!(w.screen_char(0, BUFFER_HEIGHT - 1, 1).ascii_character, b' ');
}

#[test]
fn backspace_at_column_zero_is_a_no_op() {
    let mut w = Writer::new();
    w.write("\u{8}", Color::White, Color::Black, 0);
    assert_eq!(w.cursor(0), 0);
    for row in 0..BUFFER_HEIGHT {
        for col in 0..BUFFER_WIDTH {
            assert_eq!(w.screen_char(0, row, col).ascii_character, b' ');
        }
    }
}

#[test]
fn backspace_blanks_previous_cell() {
    let mut w = Writer::new();
    w.write("AB\u{8}", Color::White, Color::Black, 0);
    assert_eq!(w.cursor(0), 1);
    assert_eq!(w.screen_char(0, BUFFER_HEIGHT - 1, 0).ascii_character, b'A');
    assert_eq!(w.screen_char(0, BUFFER_HEIGHT - 1, 1).ascii_character, b' ');
}

#[test]
fn clear_blanks_everything_in_current_attribute() {
    let mut w = Writer::new();
    w.write("some text\nmore text", Color::Yellow, Color::Blue, 0);
    w.clear(0);
    assert_eq!(w.cursor(0), 0);
    for row in 0..BUFFER_HEIGHT {
        for col in 0..BUFFER_WIDTH {
            let cell = w.screen_char(0, row, col);
            assert_eq!(cell.ascii_character, b' ');
            assert_eq!(cell.color_code.0, 0x1e);
        }
    }
}

#[test]
fn null_byte_clears_the_selected_screen() {
    let mut w = Writer::new();
    w.write("hello", Color::White, Color::Black, 0);
    w.write("\u{0}", Color::White, Color::Black, 0);
    assert_eq!(w.cursor(0), 0);
    for col in 0..BUFFER_WIDTH {
        assert_eq!(w.screen_char(0, BUFFER_HEIGHT - 1, col).ascii_character, b' ');
    }
}

#[test]
fn escape_byte_is_consumed_without_effect() {
    let mut w = Writer::new();
    w.write("\u{1b}", Color::White, Color::Black, 0);
    assert_eq!(w.cursor(0), 0);
    assert_eq!(w.screen_char(0, BUFFER_HEIGHT - 1, 0).ascii_character, b' ');
}

#[test]
fn unprintable_byte_becomes_placeholder_glyph() {
    let mut w = Writer::new();
    w.write("\u{7f}", Color::White, Color::Black, 0);
    assert_eq!(w.cursor(0), 1);
    assert_eq!(w.screen_char(0, BUFFER_HEIGHT - 1, 0).ascii_character, 0xfe);
}

#[test]
fn writes_to_one_screen_leave_the_other_untouched() {
    let mut w = Writer::new();
    w.write("AAA", Color::White, Color::Black, 0);
    let cursor0 = w.cursor(0);
    w.write("BB", Color::Black, Color::LightGray, 1);
    // Screen 0 kept its cells and cursor although screen 1 was written.
    assert_eq!(w.cursor(0), cursor0);
    assert_eq!(w.screen_char(0, BUFFER_HEIGHT - 1, 0).ascii_character, b'A');
    assert_eq!(w.screen_char(0, BUFFER_HEIGHT - 1, 2).ascii_character, b'A');
    assert_eq!(w.screen_char(0, BUFFER_HEIGHT - 1, 0).color_code.0, 15);
    // Screen 1 received its own write.
    assert_eq!(w.cursor(1), 2);
    assert_eq!(w.screen_char(1, BUFFER_HEIGHT - 1, 0).ascii_character, b'B');
    // Writing back to screen 0 leaves screen 1 untouched.
    w.write("C", Color::White, Color::Black, 0);
    assert_eq!(w.cursor(1), 2);
    assert_eq!(w.screen_char(1, BUFFER_HEIGHT - 1, 1).ascii_character, b'B');
}

#[test]
fn mirror_reflects_selected_screen_bit_for_bit() {
    let mut w = Writer::new();
    w.write("xyz", Color::LightRed, Color::Black, 0);
    let sel = w.selected_index();
    for row in 0..BUFFER_HEIGHT {
        for col in 0..BUFFER_WIDTH {
            let cell = w.screen_char(sel, row, col);
            let base = 2 * (row * BUFFER_WIDTH + col);
            assert_eq!(w.buffer_byte(base), cell.ascii_character);
            assert_eq!(w.buffer_byte(base + 1), cell.color_code.0);
        }
    }
}

#[test]
fn mirror_follows_the_most_recent_write_target() {
    let mut w = Writer::new();
    w.write("zero", Color::White, Color::Black, 0);
    w.write("one", Color::Black, Color::LightGray, 1);
    // After a write naming screen 1, the mirror shows screen 1.
    assert_eq!(w.selected_index(), 1);
    assert_eq!(w.buffer_byte(2 * ((BUFFER_HEIGHT - 1) * BUFFER_WIDTH)), b'o');
    w.write("", Color::White, Color::Black, 0);
    // An empty write naming screen 0 re-mirrors screen 0.
    assert_eq!(w.selected_index(), 0);
    assert_eq!(w.buffer_byte(2 * ((BUFFER_HEIGHT - 1) * BUFFER_WIDTH)), b'z');
}

#[test]
fn write_scenario_two_lines_then_clear() {
    let mut w = Writer::new();
    w.write("AB\nCD", Color::White, Color::Black, 0);
    assert_eq!(w.screen_char(0, BUFFER_HEIGHT - 1, 0).ascii_character, b'C');
    assert_eq!(w.screen_char(0, BUFFER_HEIGHT - 1, 1).ascii_character, b'D');
    assert_eq!(w.screen_char(0, BUFFER_HEIGHT - 1, 2).ascii_character, b' ');
    assert_eq!(w.screen_char(0, BUFFER_HEIGHT - 2, 0).ascii_character, b'A');
    assert_eq!(w.screen_char(0, BUFFER_HEIGHT - 2, 1).ascii_character, b'B');
    assert_eq!(w.cursor(0), 2);
    assert_eq!(w.screen_char(0, BUFFER_HEIGHT - 1, 0).color_code.0, 15);
    w.write("\u{0}", Color::White, Color::Black, 0);
    assert_eq!(w.cursor(0), 0);
    for row in 0..BUFFER_HEIGHT {
        for col in 0..BUFFER_WIDTH {
            assert_eq!(w.screen_char(0, row, col).ascii_character, b' ');
        }
    }
}

use popcorn::low_level::vga_buffer::{
    Buffer, Char, Color, ColorCode, MessageToVga, Writer, ACTUAL_BUFFER_WIDTH, BUFFER_HEIGHT,
    BUFFER_WIDTH,
};

const ALL_COLORS: [Color; 16] = [
    Color::Black,
    Color::Blue,
    Color::Green,
    Color::Cyan,
    Color::Red,
    Color::Magenta,
    Color::Brown,
    Color::LighGrey,
    Color::DarkGrey,
    Color::LightBlue,
    Color::LightGreen,
    Color::LightCyan,
    Color::LightRed,
    Color::LightMagenta,
    Color::Yellow,
    Color::White,
];

const BOTTOM: usize = BUFFER_HEIGHT - 1;

fn fresh_buffer() -> &'static mut Buffer {
    Box::leak(Box::new([[0u16; BUFFER_WIDTH]; BUFFER_HEIGHT]))
}

fn cleared_writer(color: Color) -> Writer {
    let mut w = Writer::new(fresh_buffer(), ColorCode::new(Color::Yellow, Color::Black));
    w.clear_screen(color);
    w
}

fn blank(code: ColorCode) -> Char {
    Char::new(b' ', code)
}

#[test]
fn color_values_are_palette_numbers() {
    for (i, c) in ALL_COLORS.iter().enumerate() {
        assert_eq!(c.value() as usize, i);
    }
}

#[test]
fn construct_then_decompose_gives_colors_back() {
    for fg in ALL_COLORS {
        for bg in ALL_COLORS {
            let code = ColorCode::new(fg, bg);
            assert_eq!(code.get_colors(), (fg.value(), bg.value()));
        }
    }
}

#[test]
fn color_code_packs_background_high() {
    assert_eq!(ColorCode::new(Color::Yellow, Color::Black), ColorCode(0x0E));
    assert_eq!(ColorCode::new(Color::White, Color::Blue), ColorCode(0x1F));
    assert_eq!(ColorCode::generate(0x9, 0x4), ColorCode(0x49));
}

#[test]
fn invert_swaps_halves_and_twice_is_identity() {
    for fg in ALL_COLORS {
        for bg in ALL_COLORS {
            let original = ColorCode::new(fg, bg);
            let mut code = original;
            code.invert();
            assert_eq!(code, ColorCode::new(bg, fg));
            code.invert();
            assert_eq!(code, original);
        }
    }
}

#[test]
fn char_invert_colors_only_touches_color() {
    let mut c = Char::new(b'k', ColorCode::new(Color::Green, Color::Red));
    c.invert_colors();
    assert_eq!(c, Char::new(b'k', ColorCode::new(Color::Red, Color::Green)));
}

#[test]
fn char_word_layout() {
    let c = Char::new(b'A', ColorCode(0x1F));
    assert_eq!(c.to_word(), 0x1F41);
    assert_eq!(Char::from_word(0x1F41), c);
}

#[test]
fn clear_screen_blanks_every_cell() {
    let w = cleared_writer(Color::Blue);
    let code = ColorCode::new(Color::Blue, Color::Blue);
    for row in 0..BUFFER_HEIGHT {
        for col in 0..BUFFER_WIDTH {
            assert_eq!(w.char_at(row, col), blank(code));
            assert_eq!(w.drawn_at(row, col), blank(code));
        }
    }
    assert_eq!(w.column_position(), 0);
    assert_eq!(w.color_code(), ColorCode::new(Color::Yellow, Color::Black));
}

#[test]
fn clear_screen_keeps_cursor_column() {
    let mut w = cleared_writer(Color::Black);
    w.write_string("abc");
    w.clear_screen(Color::Green);
    assert_eq!(w.column_position(), 3);
    assert_eq!(w.char_at(BOTTOM, 2), blank(ColorCode(0x22)));
}

#[test]
fn writing_full_usable_width_fills_bottom_row() {
    let mut w = cleared_writer(Color::Black);
    let text: Vec<u8> = (0..ACTUAL_BUFFER_WIDTH).map(|i| b'a' + (i % 26) as u8).collect();
    let s = String::from_utf8(text.clone()).unwrap();
    w.write_string(&s);
    assert_eq!(w.column_position(), ACTUAL_BUFFER_WIDTH);
    let code = ColorCode::new(Color::Yellow, Color::Black);
    for i in 0..ACTUAL_BUFFER_WIDTH {
        assert_eq!(w.char_at(BOTTOM, i + 1), Char::new(text[i], code));
    }
    let black = blank(ColorCode(0));
    assert_eq!(w.char_at(BOTTOM, 0), black);
    for col in ACTUAL_BUFFER_WIDTH + 1..BUFFER_WIDTH {
        assert_eq!(w.char_at(BOTTOM, col), black);
    }
    for row in 0..BOTTOM {
        for col in 0..BUFFER_WIDTH {
            assert_eq!(w.char_at(row, col), black);
        }
    }
}

#[test]
fn newline_scrolls_once() {
    let mut w = cleared_writer(Color::Black);
    w.write_string("hi");
    w.write_byte(b'\n');
    let code = ColorCode::new(Color::Yellow, Color::Black);
    assert_eq!(w.column_position(), 0);
    assert_eq!(w.char_at(BOTTOM - 1, 1), Char::new(b'h', code));
    assert_eq!(w.char_at(BOTTOM - 1, 2), Char::new(b'i', code));
    assert_eq!(w.char_at(BOTTOM - 1, 3), blank(ColorCode(0)));
    for col in 0..BUFFER_WIDTH {
        assert_eq!(w.char_at(BOTTOM, col), blank(code));
    }
    // the cursor highlight sits just past column 0
    assert_eq!(w.drawn_at(BOTTOM, 1), blank(ColorCode::new(Color::Black, Color::Yellow)));
}

#[test]
fn scroll_moves_every_row_up() {
    let mut w = cleared_writer(Color::Black);
    w.write_string("x\ny\n");
    let code = ColorCode::new(Color::Yellow, Color::Black);
    assert_eq!(w.char_at(BOTTOM - 2, 1), Char::new(b'x', code));
    assert_eq!(w.char_at(BOTTOM - 1, 1), Char::new(b'y', code));
    for _ in 0..BUFFER_HEIGHT {
        w.write_byte(b'\n');
    }
    for row in 0..BUFFER_HEIGHT {
        assert_eq!(w.char_at(row, 1), blank(code));
    }
}

#[test]
fn byte_past_usable_width_scrolls_and_is_consumed() {
    let mut w = cleared_writer(Color::Black);
    let s: String = std::iter::repeat('A').take(ACTUAL_BUFFER_WIDTH + 1).collect();
    w.write_string(&s);
    let code = ColorCode::new(Color::Yellow, Color::Black);
    assert_eq!(w.column_position(), 0);
    for col in 1..=ACTUAL_BUFFER_WIDTH {
        assert_eq!(w.char_at(BOTTOM - 1, col), Char::new(b'A', code));
    }
    for col in 0..BUFFER_WIDTH {
        assert_eq!(w.char_at(BOTTOM, col), blank(code));
    }
    for row in 0..BOTTOM - 1 {
        assert_eq!(w.char_at(row, 1), blank(ColorCode(0)));
    }
}

#[test]
fn popcorn_scenario() {
    let mut w = cleared_writer(Color::Black);
    w.set_color(Color::Yellow, Color::Black);
    w.write_string("POPCORN!");
    let code = ColorCode::new(Color::Yellow, Color::Black);
    for (i, b) in "POPCORN!".bytes().enumerate() {
        assert_eq!(w.char_at(BOTTOM, i + 1), Char::new(b, code));
    }
    assert_eq!(w.column_position(), 8);
}

#[test]
fn colored_message_scenario() {
    let mut w = cleared_writer(Color::Black);
    let messages = [
        MessageToVga::new(Color::Yellow, Color::Black, "Welcome to the "),
        MessageToVga::new(Color::LightBlue, Color::Black, "Popcorn Kernel!"),
    ];
    w.write_colored(&messages);
    let yellow = ColorCode::new(Color::Yellow, Color::Black);
    let blue = ColorCode::new(Color::LightBlue, Color::Black);
    let line = b"Welcome to the Popcorn Kernel!";
    for (i, b) in line.iter().enumerate() {
        let code = if i < 15 { yellow } else { blue };
        assert_eq!(w.char_at(BOTTOM, i + 1), Char::new(*b, code));
    }
    assert_eq!(w.column_position(), line.len());
    assert_eq!(w.color_code(), blue);
}

#[test]
fn set_color_does_not_repaint() {
    let mut w = cleared_writer(Color::Black);
    w.write_string("a");
    w.set_color(Color::Red, Color::White);
    w.write_string("b");
    assert_eq!(w.char_at(BOTTOM, 1), Char::new(b'a', ColorCode(0x0E)));
    assert_eq!(w.char_at(BOTTOM, 2), Char::new(b'b', ColorCode(0xF4)));
}

#[test]
fn backspace_at_column_zero_changes_nothing() {
    let mut w = cleared_writer(Color::Black);
    w.write_string("q\n");
    w.backspace();
    assert_eq!(w.column_position(), 0);
    assert_eq!(w.char_at(BOTTOM - 1, 1), Char::new(b'q', ColorCode(0x0E)));
    for col in 0..BUFFER_WIDTH {
        assert_eq!(w.char_at(BOTTOM, col), blank(ColorCode(0x0E)));
    }
}

#[test]
fn backspace_blanks_cell_and_steps_back() {
    let mut w = cleared_writer(Color::Black);
    w.write_string("abc");
    w.backspace();
    assert_eq!(w.column_position(), 2);
    assert_eq!(w.char_at(BOTTOM, 1), Char::new(b'a', ColorCode(0x0E)));
    assert_eq!(w.char_at(BOTTOM, 2), Char::new(b'b', ColorCode(0x0E)));
    assert_eq!(w.char_at(BOTTOM, 3), blank(ColorCode(0x0E)));
    assert_eq!(w.drawn_at(BOTTOM, 3), blank(ColorCode(0xE0)));
}

#[test]
fn backspace_at_column_one_starts_new_line() {
    let mut w = cleared_writer(Color::Black);
    w.write_string("z");
    w.backspace();
    assert_eq!(w.column_position(), 0);
    assert_eq!(w.char_at(BOTTOM - 1, 1), blank(ColorCode(0x0E)));
}

#[test]
fn cursor_moves_without_touching_cells() {
    let mut w = cleared_writer(Color::Black);
    w.write_string("abcd");
    w.cursor_back();
    w.cursor_back();
    assert_eq!(w.column_position(), 2);
    assert_eq!(w.char_at(BOTTOM, 3), Char::new(b'c', ColorCode(0x0E)));
    assert_eq!(w.drawn_at(BOTTOM, 3), Char::new(b'c', ColorCode(0xE0)));
    w.cursor_front();
    assert_eq!(w.column_position(), 3);
    assert_eq!(w.drawn_at(BOTTOM, 3), Char::new(b'c', ColorCode(0x0E)));
    assert_eq!(w.drawn_at(BOTTOM, 4), Char::new(b'd', ColorCode(0xE0)));
}

#[test]
fn cursor_front_stops_at_usable_width() {
    let mut w = cleared_writer(Color::Black);
    for _ in 0..ACTUAL_BUFFER_WIDTH + 5 {
        w.cursor_front();
    }
    assert_eq!(w.column_position(), ACTUAL_BUFFER_WIDTH);
}

#[test]
fn cursor_back_at_column_zero_changes_nothing() {
    let mut w = cleared_writer(Color::Black);
    w.cursor_back();
    assert_eq!(w.column_position(), 0);
    for col in 0..BUFFER_WIDTH {
        assert_eq!(w.drawn_at(BOTTOM, col), blank(ColorCode(0)));
    }
}

#[test]
fn move_cursor_to_zero_scrolls() {
    let mut w = cleared_writer(Color::Black);
    w.write_string("m");
    w.move_cursor(7);
    assert_eq!(w.column_position(), 7);
    w.move_cursor(0);
    assert_eq!(w.column_position(), 0);
    assert_eq!(w.char_at(BOTTOM - 1, 1), Char::new(b'm', ColorCode(0x0E)));
}

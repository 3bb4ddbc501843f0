use vga_text::model::{GRID_CELLS};
use vga_text::vga_buf::{Alignment, AsciiChar, Color, ColorCode, Screen, DEFAULT_COLOR};

#[test]
fn write_then_read_returns_the_same_cell() {
    let mut screen = Screen::new(ColorCode::new(Color::White, Color::Black), Alignment::Left);
    screen.write_char(1234, AsciiChar { char_byte: 0x41, color_byte: 0x17 });
    let cell = screen.read_char(1234);
    assert_eq!(cell.char_byte, 0x41);
    assert_eq!(cell.color_byte, 0x17);
}

#[test]
fn round_trip_at_the_grid_corners() {
    let mut screen = Screen::new(ColorCode::new(Color::White, Color::Black), Alignment::Left);
    screen.write_char(0, AsciiChar { char_byte: b'!', color_byte: 1 });
    screen.write_char(GRID_CELLS - 1, AsciiChar { char_byte: b'{', color_byte: 0xff });
    assert_eq!(screen.read_char(0).char_byte, b'!');
    assert_eq!(screen.read_char(0).color_byte, 1);
    assert_eq!(screen.read_char(GRID_CELLS - 1).char_byte, b'{');
    assert_eq!(screen.read_char(GRID_CELLS - 1).color_byte, 0xff);
}

#[test]
fn a_new_screen_is_blank() {
    let screen = Screen::new(ColorCode::new(Color::White, Color::Black), Alignment::Left);
    for off in [0, 1, 79, 80, 1999] {
        let cell = screen.read_char(off);
        assert_eq!(cell.char_byte, 0);
        assert_eq!(cell.color_byte, 0);
    }
}

#[test]
fn color_codes_pack_background_high_and_foreground_low() {
    // each pair: (foreground, background, expected 16 * bg + fg)
    let mut screen = Screen::new(ColorCode::new(Color::Yellow, Color::Red), Alignment::Left);
    screen.print(b"a");
    assert_eq!(screen.read_char(0).color_byte, 4 * 16 + 14);

    let mut screen = Screen::new(ColorCode::new(Color::Black, Color::White), Alignment::Left);
    screen.print(b"a");
    assert_eq!(screen.read_char(0).color_byte, 15 * 16);

    let mut screen = Screen::new(ColorCode::new(Color::LightGreen, Color::Black), Alignment::Left);
    screen.print(b"a");
    assert_eq!(screen.read_char(0).color_byte, DEFAULT_COLOR);
}

#[test]
fn default_color_is_light_green_on_black() {
    assert_eq!(DEFAULT_COLOR, 0x0a);
}

use vga_text::vga_buf::{Alignment, Color, ColorCode, Screen};

const W: usize = 80;

fn ch(screen: &Screen, row: usize, col: usize) -> u8 {
    screen.read_char(row * W + col).char_byte
}

fn attr(screen: &Screen, row: usize, col: usize) -> u8 {
    screen.read_char(row * W + col).color_byte
}

#[test]
fn left_starts_at_cursor_column() {
    let mut screen = Screen::new(ColorCode::new(Color::White, Color::Black), Alignment::Left);
    screen.print(b"ab");
    screen.print(b"cd");
    assert_eq!(ch(&screen, 0, 0), b'a');
    assert_eq!(ch(&screen, 0, 1), b'b');
    assert_eq!(ch(&screen, 0, 2), b'c');
    assert_eq!(ch(&screen, 0, 3), b'd');
    assert_eq!(ch(&screen, 0, 4), 0);
}

#[test]
fn left_line_break_resumes_at_column_zero() {
    let mut screen = Screen::new(ColorCode::new(Color::White, Color::Black), Alignment::Left);
    screen.print(b"ab\ncd");
    assert_eq!(ch(&screen, 0, 0), b'a');
    assert_eq!(ch(&screen, 0, 1), b'b');
    assert_eq!(ch(&screen, 1, 0), b'c');
    assert_eq!(ch(&screen, 1, 1), b'd');
}

#[test]
fn center_places_first_char_at_half_width_minus_half_length() {
    let mut screen = Screen::new(ColorCode::new(Color::White, Color::Black), Alignment::Center);
    screen.print(b"hello");
    // W/2 - L/2 = 40 - 2 = 38
    for (k, b) in b"hello".iter().enumerate() {
        assert_eq!(ch(&screen, 0, 38 + k), *b);
    }
    assert_eq!(ch(&screen, 0, 37), 0);
    assert_eq!(ch(&screen, 0, 43), 0);
}

#[test]
fn center_even_length_offset() {
    let mut screen = Screen::new(ColorCode::new(Color::White, Color::Black), Alignment::Center);
    screen.print(b"hi");
    // W/2 - L/2 = 40 - 1 = 39
    assert_eq!(ch(&screen, 0, 39), b'h');
    assert_eq!(ch(&screen, 0, 40), b'i');
}

#[test]
fn center_numeric_fragment_is_left_anchored() {
    let mut screen = Screen::new(ColorCode::new(Color::White, Color::Black), Alignment::Center);
    screen.print(b"1234");
    assert_eq!(ch(&screen, 0, 0), b'1');
    assert_eq!(ch(&screen, 0, 1), b'2');
    assert_eq!(ch(&screen, 0, 2), b'3');
    assert_eq!(ch(&screen, 0, 3), b'4');
    assert_eq!(ch(&screen, 0, 38), 0);
}

#[test]
fn right_places_first_char_at_width_minus_length() {
    let mut screen = Screen::new(ColorCode::new(Color::White, Color::Black), Alignment::Right);
    screen.print(b"hello");
    // W - L = 75
    for (k, b) in b"hello".iter().enumerate() {
        assert_eq!(ch(&screen, 0, 75 + k), *b);
    }
    assert_eq!(ch(&screen, 0, 74), 0);
}

#[test]
fn written_cells_carry_the_writer_attribute() {
    // background blue (1), foreground white (15): 1 * 16 + 15 = 31
    let mut screen = Screen::new(ColorCode::new(Color::White, Color::Blue), Alignment::Left);
    screen.print(b"x");
    assert_eq!(ch(&screen, 0, 0), b'x');
    assert_eq!(attr(&screen, 0, 0), 31);
    assert_eq!(attr(&screen, 0, 1), 0);
}

#[test]
fn a_long_line_spills_into_the_next_row_without_wrapping() {
    // the writer does no wrapping at the row edge: a fragment longer than
    // one row continues by linear offset into the next row's storage
    let mut screen = Screen::new(ColorCode::new(Color::White, Color::Black), Alignment::Left);
    let long: Vec<u8> = (0..82).map(|k| b'a' + (k % 26) as u8).collect();
    screen.print(&long);
    for (k, b) in long.iter().enumerate() {
        assert_eq!(ch(&screen, k / W, k % W), *b);
    }
}

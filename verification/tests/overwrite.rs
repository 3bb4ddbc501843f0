use vga_text::vga_buf::{Alignment, Color, ColorCode, Screen};

const W: usize = 80;

fn ch(screen: &Screen, row: usize, col: usize) -> u8 {
    screen.read_char(row * W + col).char_byte
}

#[test]
fn digit_fragment_overwrites_in_place() {
    let mut screen = Screen::new(ColorCode::new(Color::White, Color::Black), Alignment::Right);
    screen.print(b"Number ");
    // "Number " sits at columns 73..80
    for (k, b) in b"Number ".iter().enumerate() {
        assert_eq!(ch(&screen, 0, 73 + k), *b);
    }
    screen.print(b"5");
    // the row shifted left by one and the digit landed at the margin
    for (k, b) in b"Number 5".iter().enumerate() {
        assert_eq!(ch(&screen, 0, 72 + k), *b);
    }
    assert_eq!(ch(&screen, 0, 71), 0);
}

#[test]
fn new_digits_end_at_the_same_right_margin() {
    let mut screen = Screen::new(ColorCode::new(Color::White, Color::Black), Alignment::Right);
    screen.print(b"Number ");
    screen.print(b"5");
    screen.print(b"67");
    // the previous content shifted left by two; the new digits end at the
    // same margin (column 80) the old field ended at, the stale digit
    // remaining just before them
    for (k, b) in b"Number 567".iter().enumerate() {
        assert_eq!(ch(&screen, 0, 70 + k), *b);
    }
    assert_eq!(ch(&screen, 0, 69), 0);
}

#[test]
fn overwrite_only_touches_the_current_row() {
    let mut screen = Screen::new(ColorCode::new(Color::White, Color::Black), Alignment::Right);
    screen.print(b"Number 1\n");
    screen.print(b"Number ");
    screen.print(b"2");
    // the first line is preserved verbatim on its own row
    for (k, b) in b"Number 1".iter().enumerate() {
        assert_eq!(ch(&screen, 0, 71 + k), *b);
    }
    for (k, b) in b"Number 2".iter().enumerate() {
        assert_eq!(ch(&screen, 1, 72 + k), *b);
    }
}

use vga_text::vga_buf::{Alignment, Color, ColorCode, Screen};

const W: usize = 80;
const H: usize = 25;

fn ch(screen: &Screen, row: usize, col: usize) -> u8 {
    screen.read_char(row * W + col).char_byte
}

fn attr(screen: &Screen, row: usize, col: usize) -> u8 {
    screen.read_char(row * W + col).color_byte
}

#[test]
fn a_hundred_numbered_lines_right_aligned() {
    // foreground green on black background: attribute byte 2
    let mut screen = Screen::new(ColorCode::new(Color::Green, Color::Black), Alignment::Right);
    for n in 0..100 {
        let line = format!("Number {}\n", n);
        screen.print(line.as_bytes());
    }
    // at most height - 1 lines survive: rows 0..24 hold "Number 76" up to
    // "Number 99", each right-aligned against the margin (the trailing line
    // break counts towards the fragment length, so text ends at column 79),
    // earlier lines preserved verbatim one row above the next
    for r in 0..(H - 1) {
        let expected = format!("Number {}", 76 + r);
        let text = expected.as_bytes();
        let start = W - text.len() - 1;
        for (k, b) in text.iter().enumerate() {
            assert_eq!(ch(&screen, r, start + k), *b, "row {} col {}", r, start + k);
            assert_eq!(attr(&screen, r, start + k), 2);
        }
        // nothing to the left of the field, nothing on the margin column
        for c in 0..start {
            assert_eq!(ch(&screen, r, c), 0);
        }
        assert_eq!(ch(&screen, r, W - 1), 0);
    }
    // the last row was never written
    for c in 0..W {
        assert_eq!(ch(&screen, H - 1, c), 0);
        assert_eq!(attr(&screen, H - 1, c), 0);
    }
}

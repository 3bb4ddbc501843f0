//! The executable text-grid writer and its cell, colour and alignment types.

use crate::model::{
    cell_written, char_at, color_at, emit_frag, emit_ok, is_printable_byte, lemma_gap_from_found,
    overwrite_mode, print_pre, print_spec, row_gap, row_shifted_left, scroll_step, scrolled,
    start_offset_of, BUF_HEIGHT, BUF_WIDTH, GRID_BYTES, GRID_CELLS, LINE_BREAK,
};
use crate::model::ScreenModel;
use vstd::prelude::*;

verus! {

/// Colour index of the light-green palette entry.
pub const COLOR_LIGHT_GREEN: u8 = 0xa;

/// Colour index of the black palette entry.
pub const COLOR_BLACK: u8 = 0x0;

/// The attribute byte used when no other is chosen: light-green text on a
/// black background.
pub const DEFAULT_COLOR: u8 = (COLOR_BLACK << 4) | COLOR_LIGHT_GREEN;

/// One display cell: a character byte and an attribute byte.
pub struct AsciiChar {
    pub char_byte: u8,
    pub color_byte: u8,
}

/// The horizontal alignment policy of a writer, fixed at construction.
#[derive(Copy, Clone, PartialEq, Eq, Structural)]
pub enum Alignment {
    Left,
    Right,
    Center,
}

/// The sixteen palette colours an attribute byte can name, for the
/// foreground and the background of a cell.
#[derive(Copy, Clone)]
pub enum Color {
    Black,
    Blue,
    Green,
    Cyan,
    Red,
    Magenta,
    Brown,
    LightGray,
    DarkGray,
    LightBlue,
    LightGreen,
    LightCyan,
    LightRed,
    Pink,
    Yellow,
    White,
}

impl Color {
    /// The palette index of this colour, in order of declaration.
    pub open spec fn spec_palette_index(self) -> u8 {
        match self {
            Color::Black => 0,
            Color::Blue => 1,
            Color::Green => 2,
            Color::Cyan => 3,
            Color::Red => 4,
            Color::Magenta => 5,
            Color::Brown => 6,
            Color::LightGray => 7,
            Color::DarkGray => 8,
            Color::LightBlue => 9,
            Color::LightGreen => 10,
            Color::LightCyan => 11,
            Color::LightRed => 12,
            Color::Pink => 13,
            Color::Yellow => 14,
            Color::White => 15,
        }
    }

    /// The palette index of this colour as a value.
    pub fn palette_index(self) -> (v: u8)
        ensures
            v == self.spec_palette_index(),
            v <= 15,
    {
        match self {
            Color::Black => 0,
            Color::Blue => 1,
            Color::Green => 2,
            Color::Cyan => 3,
            Color::Red => 4,
            Color::Magenta => 5,
            Color::Brown => 6,
            Color::LightGray => 7,
            Color::DarkGray => 8,
            Color::LightBlue => 9,
            Color::LightGreen => 10,
            Color::LightCyan => 11,
            Color::LightRed => 12,
            Color::Pink => 13,
            Color::Yellow => 14,
            Color::White => 15,
        }
    }
}

/// A packed attribute byte: background colour index in the high nibble,
/// foreground colour index in the low nibble.
#[derive(Copy, Clone)]
pub struct ColorCode {
    color_code: u8,
}

impl ColorCode {
    /// The packed attribute byte this code stands for.
    pub closed spec fn code(self) -> u8 {
        self.color_code
    }

    /// Packs a foreground and a background colour into one attribute byte:
    /// sixteen times the background index plus the foreground index.
    pub fn new(foreground: Color, background: Color) -> (cc: ColorCode)
        ensures
            cc.code() == background.spec_palette_index() * 16 + foreground.spec_palette_index(),
    {
        let f = foreground.palette_index();
        let b = background.palette_index();
        proof {
            assert(b <= 15 ==> (b << 4) == b * 16 && (b << 4) <= 240) by (bit_vector);
        }
        let code = (b << 4) + f;
        ColorCode { color_code: code }
    }
}

/// The text-grid writer: the grid's cell bytes, the default attribute, the
/// alignment policy, and the cursor.
pub struct Screen {
    buffer: Vec<u8>,
    color: ColorCode,
    align: Alignment,
    row: usize,
    column: usize,
}

impl View for Screen {
    type V = ScreenModel;

    closed spec fn view(&self) -> ScreenModel {
        ScreenModel {
            grid: self.buffer@,
            row: self.row as int,
            col: self.column as int,
            color: self.color.code(),
            align: self.align,
        }
    }
}

impl Screen {
    /// A well-formed writer: its abstract state is well-formed.
    pub open spec fn wf(self) -> bool {
        self@.wf()
    }

    /// Builds a writer over a blank grid, with the cursor at the top-left
    /// corner and the given attribute and alignment fixed for its lifetime.
    pub fn new(color: ColorCode, align: Alignment) -> (s: Screen)
        ensures
            s.wf(),
            s@.grid.len() == GRID_BYTES,
            forall|k: int| 0 <= k < GRID_BYTES ==> s@.grid[k] == 0u8,
            s@.row == 0,
            s@.col == 0,
            s@.color == color.code(),
            s@.align == align,
    {
        let mut buffer: Vec<u8> = Vec::new();
        let mut k: usize = 0;
        while k < GRID_BYTES
            invariant
                k <= GRID_BYTES,
                buffer@.len() == k,
                forall|j: int| 0 <= j < k ==> buffer@[j] == 0u8,
            decreases GRID_BYTES - k,
        {
            buffer.push(0u8);
            k = k + 1;
        }
        Screen { buffer, color, align, row: 0, column: 0 }
    }

    /// Stores `ch` in the cell at linear offset `offset`: the character byte
    /// at `2 * offset`, the attribute byte right after it.
    pub fn write_char(&mut self, offset: usize, ch: AsciiChar)
        requires
            old(self).wf(),
            offset < GRID_CELLS,
        ensures
            final(self).wf(),
            final(self)@.grid == cell_written(
                old(self)@.grid,
                offset as int,
                ch.char_byte,
                ch.color_byte,
            ),
            final(self)@.row == old(self)@.row,
            final(self)@.col == old(self)@.col,
            final(self)@.color == old(self)@.color,
            final(self)@.align == old(self)@.align,
    {
        self.buffer[2 * offset] = ch.char_byte;
        self.buffer[2 * offset + 1] = ch.color_byte;
    }

    /// Prints one text fragment. Scrolls first when the cursor row has
    /// reached the last row; then lays the fragment out by the alignment
    /// policy — left at the cursor, centered or right-aligned by a start
    /// offset, or, for right-aligned fragments that open with a digit, by
    /// shifting the row left and overwriting the old field in place — and
    /// finally emits the fragment byte by byte, moving to the next row at
    /// each line break.
    #[verifier::loop_isolation(false)]
    pub fn print(&mut self, s: &[u8])
        requires
            print_pre(old(self)@, s@),
        ensures
            final(self).wf(),
            final(self)@ == print_spec(old(self)@, s@),
    {
        if self.row >= BUF_HEIGHT - 1 {
            self.row = self.row - 1;
            self.scroll_up();
        }
        let ghost m1 = self@;
        proof {
            assert(m1 == scroll_step(old(self)@));
        }
        let size = s.len();
        let mut start_offset: usize = 0;
        let first = s[0];

        if self.align == Alignment::Left {
        } else if self.align == Alignment::Center {
            if first >= 0x30 && first <= 0x39 {
            } else {
                start_offset = BUF_WIDTH / 2 - size / 2;
            }
        } else if self.align == Alignment::Right {
            if first >= 0x30 && first <= 0x39 {
                let copy_offset = self.find_gap();
                self.shift_row_left(copy_offset, size);
                self.column = self.column - size;
            } else {
                start_offset = BUF_WIDTH - size;
            }
        }
        proof {
            assert(!overwrite_mode(m1.align, first) ==> start_offset == start_offset_of(
                m1.align,
                first,
                size as int,
            ));
        }

        let mut pos = self.row * BUF_WIDTH + self.column + start_offset;
        self.column = self.column + start_offset;

        let ghost g_start = self@.grid;
        let ghost row_start = self@.row;
        let ghost pos_start = pos as int;
        let ghost col_start = self@.col;
        proof {
            assert(emit_ok(row_start, pos_start, s@));
            assert(s@.skip(0) =~= s@);
        }

        let mut k: usize = 0;
        while k < size
            invariant
                k <= size,
                self.wf(),
                self@.color == m1.color,
                self@.align == m1.align,
                self@.row <= row_start + k,
                self@.col <= col_start + k,
                emit_ok(self@.row, pos as int, s@.skip(k as int)),
                emit_frag(self@.grid, self@.row, pos as int, self@.col, m1.color, s@.skip(k as int))
                    == emit_frag(g_start, row_start, pos_start, col_start, m1.color, s@),
            decreases size - k,
        {
            proof {
                assert(s@.skip(k as int)[0] == s@[k as int]);
                assert(s@.skip(k as int).skip(1) =~= s@.skip(k as int + 1));
            }
            let byte = s[k];
            if byte == LINE_BREAK {
                self.row = self.row + 1;
                pos = self.row * BUF_WIDTH;
                self.column = 0;
            } else {
                self.write_char(pos, AsciiChar { char_byte: byte, color_byte: self.color.color_code });
                pos = pos + 1;
                self.column = self.column + 1;
            }
            k = k + 1;
        }
        proof {
            assert(s@.skip(size as int) =~= Seq::<u8>::empty());
        }
    }

    /// Scrolls the grid one row up: every row but the last takes the content
    /// of the row below it, and the last row keeps its content, ready to be
    /// overwritten by the fragment about to be printed.
    #[verifier::loop_isolation(false)]
    fn scroll_up(&mut self)
        requires
            old(self).wf(),
        ensures
            final(self).wf(),
            final(self)@.grid == scrolled(old(self)@.grid),
            final(self)@.row == old(self)@.row,
            final(self)@.col == old(self)@.col,
            final(self)@.color == old(self)@.color,
            final(self)@.align == old(self)@.align,
    {
        let mut i: usize = 1;
        while i < BUF_HEIGHT
            invariant
                1 <= i <= BUF_HEIGHT,
                self.wf(),
                self@.row == old(self)@.row,
                self@.col == old(self)@.col,
                self@.color == old(self)@.color,
                self@.align == old(self)@.align,
                forall|k: int|
                    0 <= k < 2 * (i - 1) * BUF_WIDTH ==> self@.grid[k] == old(self)@.grid[k + 2
                        * BUF_WIDTH],
                forall|k: int|
                    2 * (i - 1) * BUF_WIDTH <= k < GRID_BYTES ==> self@.grid[k] == old(
                        self,
                    )@.grid[k],
            decreases BUF_HEIGHT - i,
        {
            let mut j: usize = 0;
            while j < BUF_WIDTH
                invariant
                    1 <= i < BUF_HEIGHT,
                    j <= BUF_WIDTH,
                    self.wf(),
                    self@.row == old(self)@.row,
                    self@.col == old(self)@.col,
                    self@.color == old(self)@.color,
                    self@.align == old(self)@.align,
                    forall|k: int|
                        0 <= k < 2 * ((i - 1) * BUF_WIDTH + j) ==> self@.grid[k] == old(
                            self,
                        )@.grid[k + 2 * BUF_WIDTH],
                    forall|k: int|
                        2 * ((i - 1) * BUF_WIDTH + j) <= k < GRID_BYTES ==> self@.grid[k] == old(
                            self,
                        )@.grid[k],
                decreases BUF_WIDTH - j,
            {
                let ch = self.read_char(i * BUF_WIDTH + j);
                self.write_char((i - 1) * BUF_WIDTH + j, ch);
                j = j + 1;
            }
            i = i + 1;
        }
        proof {
            assert(self@.grid =~= scrolled(old(self)@.grid));
        }
    }

    /// Scans the cursor's row from the left and returns the column of its
    /// first printable cell, or the row's width if it has none: the width of
    /// the blank gap that overwrite mode shifts into.
    fn find_gap(&self) -> (gap: usize)
        requires
            self.wf(),
            self@.row < BUF_HEIGHT,
        ensures
            gap == row_gap(self@.grid, self@.row),
            gap <= BUF_WIDTH,
    {
        let mut c: usize = 0;
        while c < BUF_WIDTH
            invariant_except_break
                self.wf(),
                self@.row < BUF_HEIGHT,
                c <= BUF_WIDTH,
                forall|off: int|
                    self@.row * BUF_WIDTH <= off < self@.row * BUF_WIDTH + c
                        ==> !is_printable_byte(#[trigger] char_at(self@.grid, off)),
            ensures
                c <= BUF_WIDTH,
                forall|off: int|
                    self@.row * BUF_WIDTH <= off < self@.row * BUF_WIDTH + c
                        ==> !is_printable_byte(#[trigger] char_at(self@.grid, off)),
                c < BUF_WIDTH ==> is_printable_byte(char_at(self@.grid, self@.row * BUF_WIDTH + c)),
            decreases BUF_WIDTH - c,
        {
            let ch = self.read_char(self.row * BUF_WIDTH + c);
            if ch.char_byte >= 0x21 && ch.char_byte <= 0x7b {
                break ;
            }
            c = c + 1;
        }
        proof {
            lemma_gap_from_found(self@.grid, self@.row, 0, c as int);
        }
        c
    }

    /// Shifts the cursor's row left by `size` cells, starting at column
    /// `gap`: each cell from `gap` rightward is copied `size` cells towards
    /// lower offsets, erasing a previously written field in place.
    #[verifier::loop_isolation(false)]
    fn shift_row_left(&mut self, gap: usize, size: usize)
        requires
            old(self).wf(),
            old(self)@.row < BUF_HEIGHT,
            gap <= BUF_WIDTH,
            1 <= size,
            size <= old(self)@.row * BUF_WIDTH + gap,
        ensures
            final(self).wf(),
            final(self)@.grid == row_shifted_left(
                old(self)@.grid,
                old(self)@.row,
                gap as int,
                size as int,
            ),
            final(self)@.row == old(self)@.row,
            final(self)@.col == old(self)@.col,
            final(self)@.color == old(self)@.color,
            final(self)@.align == old(self)@.align,
    {
        let base = self.row * BUF_WIDTH;
        let mut i: usize = gap;
        while i < BUF_WIDTH
            invariant
                gap <= i <= BUF_WIDTH,
                self.wf(),
                self@.row == old(self)@.row,
                self@.col == old(self)@.col,
                self@.color == old(self)@.color,
                self@.align == old(self)@.align,
                forall|k: int|
                    2 * (base + gap - size) <= k < 2 * (base + i - size) ==> self@.grid[k] == old(
                        self,
                    )@.grid[k + 2 * size],
                forall|k: int|
                    0 <= k < GRID_BYTES && !(2 * (base + gap - size) <= k < 2 * (base + i - size))
                        ==> self@.grid[k] == old(self)@.grid[k],
            decreases BUF_WIDTH - i,
        {
            let ch = self.read_char(base + i);
            self.write_char(base + i - size, ch);
            i = i + 1;
        }
        proof {
            assert(self@.grid =~= row_shifted_left(
                old(self)@.grid,
                old(self)@.row,
                gap as int,
                size as int,
            ));
        }
    }

    /// Reads the cell at linear offset `offset` back as a character byte and
    /// an attribute byte.
    pub fn read_char(&self, offset: usize) -> (ch: AsciiChar)
        requires
            self.wf(),
            offset < GRID_CELLS,
        ensures
            ch.char_byte == char_at(self@.grid, offset as int),
            ch.color_byte == color_at(self@.grid, offset as int),
    {
        AsciiChar {
            char_byte: self.buffer[2 * offset],
            color_byte: self.buffer[2 * offset + 1],
        }
    }
}

} // verus!

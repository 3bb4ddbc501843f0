//! Mathematical model of the text grid and of the writer's operations.
//!
//! The grid is modelled as a flat sequence of bytes, two per cell: the
//! character byte at `2 * offset` and the attribute byte at `2 * offset + 1`,
//! in row-major order. Every operation of the writer — scrolling, the
//! left-shift of a row in overwrite mode, and the byte-by-byte emission of a
//! fragment — has a spec-level counterpart here, and `print_spec` composes
//! them into the full meaning of one `print` call.

use crate::vga_buf::Alignment;
use vstd::prelude::*;

verus! {

/// Number of character columns in one row of the grid.
pub const BUF_WIDTH: usize = 80;

/// Number of rows in the grid.
pub const BUF_HEIGHT: usize = 25;

/// Number of cells in the grid.
pub const GRID_CELLS: usize = BUF_WIDTH * BUF_HEIGHT;

/// Number of bytes backing the grid: two bytes per cell.
pub const GRID_BYTES: usize = 2 * GRID_CELLS;

/// The byte that ends a line of text.
pub const LINE_BREAK: u8 = 0x0a;

/// Whether `b` is an ASCII decimal digit.
pub open spec fn is_digit_byte(b: u8) -> bool {
    0x30 <= b && b <= 0x39
}

/// Whether `b` counts as printable for the overwrite-mode gap scan:
/// the inclusive byte range from `!` to `{`.
pub open spec fn is_printable_byte(b: u8) -> bool {
    0x21 <= b && b <= 0x7b
}

/// The character byte of the cell at linear offset `off`.
pub open spec fn char_at(grid: Seq<u8>, off: int) -> u8 {
    grid[2 * off]
}

/// The attribute byte of the cell at linear offset `off`.
pub open spec fn color_at(grid: Seq<u8>, off: int) -> u8 {
    grid[2 * off + 1]
}

/// The grid after storing character `ch` and attribute `color` in the cell
/// at linear offset `off`.
pub open spec fn cell_written(grid: Seq<u8>, off: int, ch: u8, color: u8) -> Seq<u8> {
    grid.update(2 * off, ch).update(2 * off + 1, color)
}

/// The grid after one scroll: every row but the last takes the content of
/// the row below it; the last row keeps its content.
pub open spec fn scrolled(grid: Seq<u8>) -> Seq<u8> {
    Seq::new(
        grid.len(),
        |k: int|
            if k < 2 * (BUF_HEIGHT - 1) * BUF_WIDTH {
                grid[k + 2 * BUF_WIDTH]
            } else {
                grid[k]
            },
    )
}

/// The column of the first printable cell of `row` at or after column `c`,
/// or `BUF_WIDTH` if there is none.
pub open spec fn gap_from(grid: Seq<u8>, row: int, c: int) -> int
    decreases BUF_WIDTH - c,
{
    if c < 0 || c >= BUF_WIDTH {
        BUF_WIDTH as int
    } else if is_printable_byte(char_at(grid, row * BUF_WIDTH + c)) {
        c
    } else {
        gap_from(grid, row, c + 1)
    }
}

/// The width of the leading non-printable gap of `row`: the column of the
/// row's first printable cell, or `BUF_WIDTH` if the row has none.
pub open spec fn row_gap(grid: Seq<u8>, row: int) -> int {
    gap_from(grid, row, 0)
}

/// A scan that saw no printable cell before column `c`, and a printable one
/// at `c` unless `c` is the row's width, has found the gap.
pub proof fn lemma_gap_from_found(grid: Seq<u8>, row: int, a: int, c: int)
    requires
        0 <= a <= c <= BUF_WIDTH,
        forall|off: int|
            row * BUF_WIDTH + a <= off < row * BUF_WIDTH + c ==> !is_printable_byte(
                #[trigger] char_at(grid, off),
            ),
        c < BUF_WIDTH ==> is_printable_byte(char_at(grid, row * BUF_WIDTH + c)),
    ensures
        gap_from(grid, row, a) == c,
    decreases c - a,
{
    if a < c {
        lemma_gap_from_found(grid, row, a + 1, c);
    }
}

/// The grid after the overwrite-mode shift: the cells of `row` from column
/// `gap` rightward, each copied `size` cells towards lower offsets.
pub open spec fn row_shifted_left(grid: Seq<u8>, row: int, gap: int, size: int) -> Seq<u8> {
    Seq::new(
        grid.len(),
        |k: int|
            if 2 * (row * BUF_WIDTH + gap - size) <= k < 2 * (row * BUF_WIDTH + BUF_WIDTH - size) {
                grid[k + 2 * size]
            } else {
                grid[k]
            },
    )
}

/// The cursor and grid state carried through fragment emission: the grid,
/// the cursor row and column, and the linear cell offset of the next write.
pub struct EmitState {
    pub grid: Seq<u8>,
    pub row: int,
    pub pos: int,
    pub col: int,
}

/// The state after emitting fragment `s` byte by byte: a line break moves
/// the cursor to the start of the next row; any other byte is stored at the
/// next write offset with attribute `color`, advancing offset and column.
pub open spec fn emit_frag(
    grid: Seq<u8>,
    row: int,
    pos: int,
    col: int,
    color: u8,
    s: Seq<u8>,
) -> EmitState
    decreases s.len(),
{
    if s.len() == 0 {
        EmitState { grid, row, pos, col }
    } else if s[0] == LINE_BREAK {
        emit_frag(grid, row + 1, (row + 1) * BUF_WIDTH, 0, color, s.skip(1))
    } else {
        emit_frag(cell_written(grid, pos, s[0], color), row, pos + 1, col + 1, color, s.skip(1))
    }
}

/// Whether emitting `s` from write offset `pos` keeps every write inside
/// the grid.
pub open spec fn emit_ok(row: int, pos: int, s: Seq<u8>) -> bool
    decreases s.len(),
{
    if s.len() == 0 {
        true
    } else if s[0] == LINE_BREAK {
        emit_ok(row + 1, (row + 1) * BUF_WIDTH, s.skip(1))
    } else {
        0 <= pos && pos < GRID_CELLS && emit_ok(row, pos + 1, s.skip(1))
    }
}

/// The abstract state of a writer: the grid bytes, the cursor, the default
/// attribute byte, and the alignment policy.
pub struct ScreenModel {
    pub grid: Seq<u8>,
    pub row: int,
    pub col: int,
    pub color: u8,
    pub align: Alignment,
}

impl ScreenModel {
    /// A well-formed writer state: the grid has its fixed size and the
    /// cursor coordinates are non-negative.
    pub open spec fn wf(self) -> bool {
        &&& self.grid.len() == GRID_BYTES
        &&& 0 <= self.row
        &&& 0 <= self.col
    }
}

/// The state after the scroll check that opens every `print` call: when the
/// cursor row has reached the last row, the grid scrolls and the cursor row
/// moves back by one; otherwise nothing changes.
pub open spec fn scroll_step(m: ScreenModel) -> ScreenModel {
    if m.row >= BUF_HEIGHT - 1 {
        ScreenModel { grid: scrolled(m.grid), row: m.row - 1, ..m }
    } else {
        m
    }
}

/// Whether a fragment whose first byte is `first` is laid out by the
/// overwrite rule: right alignment with a leading decimal digit.
pub open spec fn overwrite_mode(align: Alignment, first: u8) -> bool {
    align == Alignment::Right && is_digit_byte(first)
}

/// The start offset added to the cursor column before emission, for the
/// alignments that do not use the overwrite rule.
pub open spec fn start_offset_of(align: Alignment, first: u8, size: int) -> int {
    if align == Alignment::Center && !is_digit_byte(first) {
        BUF_WIDTH / 2 - size / 2
    } else if align == Alignment::Right && !is_digit_byte(first) {
        BUF_WIDTH - size
    } else {
        0
    }
}

/// The inputs on which `print` is defined: the fragment is non-empty, the
/// alignment arithmetic cannot underflow, every emitted write lands inside
/// the grid, and the cursor arithmetic fits in `usize`.
pub open spec fn print_pre(m: ScreenModel, s: Seq<u8>) -> bool {
    let m1 = scroll_step(m);
    let size = s.len() as int;
    &&& m.wf()
    &&& s.len() > 0
    &&& (m.align == Alignment::Center && !is_digit_byte(s[0]) ==> size / 2 <= BUF_WIDTH / 2)
    &&& (m.align == Alignment::Right && !is_digit_byte(s[0]) ==> size <= BUF_WIDTH)
    &&& (overwrite_mode(m.align, s[0]) ==> {
        &&& m1.row < BUF_HEIGHT
        &&& size <= m1.col
        &&& size <= m1.row * BUF_WIDTH + row_gap(m1.grid, m1.row)
    })
    &&& (if overwrite_mode(m.align, s[0]) {
        emit_ok(m1.row, m1.row * BUF_WIDTH + m1.col - size, s)
    } else {
        emit_ok(
            m1.row,
            m1.row * BUF_WIDTH + m1.col + start_offset_of(m.align, s[0], size),
            s,
        )
    })
    &&& (m.row + s.len() + 1) * BUF_WIDTH + m.col + 2 * BUF_WIDTH <= usize::MAX
}

/// The full meaning of one `print` call: the scroll check, then the
/// alignment decision — the overwrite shift for right-aligned numbers, a
/// start offset otherwise — then byte-by-byte emission of the fragment.
pub open spec fn print_spec(m: ScreenModel, s: Seq<u8>) -> ScreenModel {
    let m1 = scroll_step(m);
    let size = s.len() as int;
    if overwrite_mode(m.align, s[0]) {
        let gap = row_gap(m1.grid, m1.row);
        let shifted = row_shifted_left(m1.grid, m1.row, gap, size);
        let col = m1.col - size;
        let e = emit_frag(shifted, m1.row, m1.row * BUF_WIDTH + col, col, m.color, s);
        ScreenModel { grid: e.grid, row: e.row, col: e.col, color: m.color, align: m.align }
    } else {
        let off = start_offset_of(m.align, s[0], size);
        let e = emit_frag(
            m1.grid,
            m1.row,
            m1.row * BUF_WIDTH + m1.col + off,
            m1.col + off,
            m.color,
            s,
        );
        ScreenModel { grid: e.grid, row: e.row, col: e.col, color: m.color, align: m.align }
    }
}

} // verus!

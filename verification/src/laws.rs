//! Proved statements about the writer's observable behaviour: where each
//! alignment policy places a fragment, what overwrite mode leaves on the
//! row, what scrolling preserves, and that cell writes read back exactly.

use crate::model::{
    cell_written, char_at, color_at, emit_frag, gap_from, is_digit_byte, is_printable_byte,
    overwrite_mode, print_spec, row_gap, row_shifted_left, scroll_step, start_offset_of,
    ScreenModel, BUF_HEIGHT, BUF_WIDTH, GRID_BYTES, GRID_CELLS, LINE_BREAK,
};
use crate::vga_buf::Alignment;
use vstd::prelude::*;

verus! {

/// Emitting a fragment without line breaks writes its bytes, in order, at
/// consecutive offsets from the starting write offset, gives each the given
/// attribute, advances the cursor column by the fragment's length, and
/// leaves every other byte of the grid unchanged.
pub proof fn lemma_emit_no_break(
    grid: Seq<u8>,
    row: int,
    pos: int,
    col: int,
    color: u8,
    s: Seq<u8>,
)
    requires
        grid.len() == GRID_BYTES,
        0 <= pos,
        pos + s.len() <= GRID_CELLS,
        forall|j: int| 0 <= j < s.len() ==> s[j] != LINE_BREAK,
    ensures
        ({
            let e = emit_frag(grid, row, pos, col, color, s);
            &&& e.grid.len() == GRID_BYTES
            &&& e.row == row
            &&& e.pos == pos + s.len()
            &&& e.col == col + s.len()
            &&& forall|off: int|
                pos <= off < pos + s.len() ==> #[trigger] char_at(e.grid, off) == s[off - pos]
                    && color_at(e.grid, off) == color
            &&& forall|k: int|
                0 <= k < GRID_BYTES && !(2 * pos <= k < 2 * (pos + s.len()))
                    ==> #[trigger] e.grid[k] == grid[k]
        }),
    decreases s.len(),
{
    if s.len() > 0 {
        let g1 = cell_written(grid, pos, s[0], color);
        assert(forall|j: int| 0 <= j < s.skip(1).len() ==> #[trigger] s.skip(1)[j] == s[j + 1]);
        lemma_emit_no_break(g1, row, pos + 1, col + 1, color, s.skip(1));
        let e = emit_frag(grid, row, pos, col, color, s);
        assert(e == emit_frag(g1, row, pos + 1, col + 1, color, s.skip(1)));
        assert forall|off: int| pos <= off < pos + s.len() implies #[trigger] char_at(e.grid, off)
            == s[off - pos] && color_at(e.grid, off) == color by {
            if off == pos {
                assert(e.grid[2 * pos] == g1[2 * pos]);
                assert(e.grid[2 * pos + 1] == g1[2 * pos + 1]);
            } else {
                assert(char_at(e.grid, off) == s.skip(1)[off - (pos + 1)]);
                assert(color_at(e.grid, off) == color);
            }
        }
        assert forall|k: int|
            0 <= k < GRID_BYTES && !(2 * pos <= k < 2 * (pos + s.len())) implies #[trigger] e.grid[k]
            == grid[k] by {
            assert(e.grid[k] == g1[k]);
        }
    }
}

/// Round trip: after a cell is written, reading the same offset returns
/// exactly the character byte and the attribute byte that were written.
pub proof fn lemma_cell_round_trip(grid: Seq<u8>, off: int, ch: u8, color: u8)
    requires
        grid.len() == GRID_BYTES,
        0 <= off < GRID_CELLS,
    ensures
        char_at(cell_written(grid, off, ch, color), off) == ch,
        color_at(cell_written(grid, off, ch, color), off) == color,
{
}

/// With left alignment, a fragment without line breaks is written starting
/// exactly at the pre-call cursor column of the active row, in order, with
/// no offset, and the cursor advances over it.
pub proof fn lemma_left_alignment(m: ScreenModel, s: Seq<u8>)
    requires
        m.wf(),
        m.align == Alignment::Left,
        0 < s.len() <= BUF_WIDTH,
        forall|j: int| 0 <= j < s.len() ==> s[j] != LINE_BREAK,
        scroll_step(m).row * BUF_WIDTH + m.col + s.len() <= GRID_CELLS,
    ensures
        ({
            let post = print_spec(m, s);
            let start = scroll_step(m).row * BUF_WIDTH + m.col;
            &&& post.row == scroll_step(m).row
            &&& post.col == m.col + s.len()
            &&& forall|off: int|
                start <= off < start + s.len() ==> #[trigger] char_at(post.grid, off) == s[off
                    - start] && color_at(post.grid, off) == m.color
        }),
{
    let m1 = scroll_step(m);
    lemma_emit_no_break(m1.grid, m1.row, m1.row * BUF_WIDTH + m1.col, m1.col, m.color, s);
}

/// With center alignment, a fragment that does not open with a digit, has no
/// line break and fits in one row lands with its first character at column
/// `BUF_WIDTH / 2 - L / 2` of the active row, and the whole fragment stays
/// inside that row.
pub proof fn lemma_center_alignment(m: ScreenModel, s: Seq<u8>)
    requires
        m.wf(),
        m.align == Alignment::Center,
        m.col == 0,
        m.row <= BUF_HEIGHT - 1,
        0 < s.len() <= BUF_WIDTH,
        !is_digit_byte(s[0]),
        forall|j: int| 0 <= j < s.len() ==> s[j] != LINE_BREAK,
    ensures
        ({
            let post = print_spec(m, s);
            let start_col = BUF_WIDTH / 2 - s.len() as int / 2;
            let start = scroll_step(m).row * BUF_WIDTH + start_col;
            &&& post.row == scroll_step(m).row
            &&& post.col == start_col + s.len() <= BUF_WIDTH
            &&& forall|off: int|
                start <= off < start + s.len() ==> #[trigger] char_at(post.grid, off) == s[off
                    - start] && color_at(post.grid, off) == m.color
        }),
{
    let m1 = scroll_step(m);
    let start_col = BUF_WIDTH / 2 - s.len() as int / 2;
    lemma_emit_no_break(m1.grid, m1.row, m1.row * BUF_WIDTH + start_col, start_col, m.color, s);
}

/// With right alignment, a fragment that does not open with a digit, has no
/// line break and fits in one row lands with its first character at column
/// `BUF_WIDTH - L` of the active row, so that it ends exactly at the right
/// margin.
pub proof fn lemma_right_alignment(m: ScreenModel, s: Seq<u8>)
    requires
        m.wf(),
        m.align == Alignment::Right,
        m.col == 0,
        m.row <= BUF_HEIGHT - 1,
        0 < s.len() <= BUF_WIDTH,
        !is_digit_byte(s[0]),
        forall|j: int| 0 <= j < s.len() ==> s[j] != LINE_BREAK,
    ensures
        ({
            let post = print_spec(m, s);
            let start = scroll_step(m).row * BUF_WIDTH + BUF_WIDTH - s.len() as int;
            &&& post.row == scroll_step(m).row
            &&& post.col == BUF_WIDTH
            &&& forall|off: int|
                start <= off < start + s.len() ==> #[trigger] char_at(post.grid, off) == s[off
                    - start] && color_at(post.grid, off) == m.color
        }),
{
    let m1 = scroll_step(m);
    let start_col = BUF_WIDTH - s.len() as int;
    lemma_emit_no_break(m1.grid, m1.row, m1.row * BUF_WIDTH + start_col, start_col, m.color, s);
}

/// Overwrite mode keeps the right margin: a right-aligned digit fragment is
/// written so that it ends exactly at the pre-call cursor column — the same
/// margin the previous field ended at, whatever the two lengths — and the
/// cursor column is back at that margin afterwards. The row's previous
/// content, from its first printable cell up to the new field, reappears
/// shifted left by the fragment's length.
pub proof fn lemma_right_overwrite(m: ScreenModel, s: Seq<u8>)
    requires
        m.wf(),
        m.align == Alignment::Right,
        m.row <= BUF_HEIGHT - 1,
        m.col <= BUF_WIDTH,
        0 < s.len() <= m.col,
        forall|j: int| 0 <= j < s.len() ==> is_digit_byte(s[j]),
        s.len() <= scroll_step(m).row * BUF_WIDTH + row_gap(scroll_step(m).grid, scroll_step(m).row),
    ensures
        ({
            let m1 = scroll_step(m);
            let post = print_spec(m, s);
            let start = m1.row * BUF_WIDTH + m.col - s.len() as int;
            let gap = row_gap(m1.grid, m1.row);
            &&& post.row == m1.row
            &&& post.col == m.col
            &&& forall|off: int|
                start <= off < start + s.len() ==> #[trigger] char_at(post.grid, off) == s[off
                    - start] && color_at(post.grid, off) == m.color
            &&& forall|off: int|
                m1.row * BUF_WIDTH + gap - s.len() <= off < start ==> #[trigger] char_at(
                    post.grid,
                    off,
                ) == char_at(m1.grid, off + s.len()) && color_at(post.grid, off) == color_at(
                    m1.grid,
                    off + s.len(),
                )
        }),
{
    let m1 = scroll_step(m);
    let size = s.len() as int;
    let gap = row_gap(m1.grid, m1.row);
    let shifted = row_shifted_left(m1.grid, m1.row, gap, size);
    let start = m1.row * BUF_WIDTH + m.col - size;
    assert(is_digit_byte(s[0]));
    assert(forall|j: int| 0 <= j < s.len() ==> s[j] != LINE_BREAK);
    lemma_gap_at_most_width(m1.grid, m1.row, 0);
    lemma_emit_no_break(shifted, m1.row, start, m1.col - size, m.color, s);
}

/// A gap scan never reports a column beyond the row's width.
proof fn lemma_gap_at_most_width(grid: Seq<u8>, row: int, c: int)
    ensures
        gap_from(grid, row, c) <= BUF_WIDTH,
    decreases BUF_WIDTH - c,
{
    if 0 <= c && c < BUF_WIDTH && !is_printable_byte(
        char_at(grid, row * BUF_WIDTH + c),
    ) {
        lemma_gap_at_most_width(grid, row, c + 1);
    }
}

/// Scrolling: when earlier line breaks have pushed the cursor row to the
/// last row, the next print first discards the top row and moves every other
/// row up by one — each remaining row's content is what stood one row below
/// it — then writes on the second-to-last row, where the cursor row stays
/// pinned as long as the fragment holds no line break.
pub proof fn lemma_print_scrolls(m: ScreenModel, s: Seq<u8>)
    requires
        m.wf(),
        m.row == BUF_HEIGHT - 1,
        0 < s.len(),
        forall|j: int| 0 <= j < s.len() ==> s[j] != LINE_BREAK,
        !overwrite_mode(m.align, s[0]),
        (BUF_HEIGHT - 2) * BUF_WIDTH + m.col + start_offset_of(m.align, s[0], s.len() as int)
            + s.len() <= GRID_CELLS,
        0 <= start_offset_of(m.align, s[0], s.len() as int),
    ensures
        ({
            let post = print_spec(m, s);
            let start = (BUF_HEIGHT - 2) * BUF_WIDTH + m.col + start_offset_of(
                m.align,
                s[0],
                s.len() as int,
            );
            &&& post.row == BUF_HEIGHT - 2
            &&& forall|off: int|
                start <= off < start + s.len() ==> #[trigger] char_at(post.grid, off) == s[off
                    - start] && color_at(post.grid, off) == m.color
            &&& forall|off: int|
                0 <= off < (BUF_HEIGHT - 1) * BUF_WIDTH && !(start <= off < start + s.len())
                    ==> #[trigger] char_at(post.grid, off) == char_at(m.grid, off + BUF_WIDTH)
                        && color_at(post.grid, off) == color_at(m.grid, off + BUF_WIDTH)
        }),
{
    let m1 = scroll_step(m);
    let off0 = start_offset_of(m.align, s[0], s.len() as int);
    let start = m1.row * BUF_WIDTH + m.col + off0;
    lemma_emit_no_break(m1.grid, m1.row, start, m1.col + off0, m.color, s);
}

} // verus!


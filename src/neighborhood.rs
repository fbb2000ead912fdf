//! Counting live cells around a grid position. Positions outside the grid are
//! absent: they are never live and never wrap around.
use crate::rules::Ruleset;
use crate::world::{lemma_index_in_bounds, Board, Cell, Grid};
use vstd::prelude::*;

verus! {

/// Bit 0 of the state marks a cell that counts as live for its neighbours.
pub open spec fn is_live(c: Cell) -> bool {
    c.state & 1 == 1
}

/// 1 when `(r, c)` is on the board and live, else 0.
pub open spec fn live_at(b: Grid, r: int, c: int) -> int {
    if b.in_bounds(r, c) && is_live(b.cell(r, c)) {
        1
    } else {
        0
    }
}

/// Live cells among the left and right neighbours of `(r, c)` in row `r`,
/// plus `(r, c)` itself when `center` holds.
pub open spec fn live_in_row(b: Grid, r: int, c: int, center: bool) -> int {
    live_at(b, r, c - 1) + (if center {
        live_at(b, r, c)
    } else {
        0
    }) + live_at(b, r, c + 1)
}

/// Live cells among the eight neighbours of `(row, col)`.
pub open spec fn live_neighbors(b: Grid, row: int, col: int) -> int {
    live_in_row(b, row - 1, col, true) + live_in_row(b, row, col, false) + live_in_row(
        b,
        row + 1,
        col,
        true,
    )
}

/// 1 when `(r, c)` is on the board, live and owned by `rs`, else 0.
pub open spec fn owned_live_at(b: Grid, r: int, c: int, rs: Ruleset) -> int {
    if b.in_bounds(r, c) && is_live(b.cell(r, c)) && b.cell(r, c).ruleset == rs {
        1
    } else {
        0
    }
}

/// Live cells owned by `rs` among the eight neighbours of `(row, col)`.
pub open spec fn population(b: Grid, row: int, col: int, rs: Ruleset) -> int {
    owned_live_at(b, row - 1, col - 1, rs) + owned_live_at(b, row - 1, col, rs) + owned_live_at(
        b,
        row - 1,
        col + 1,
        rs,
    ) + owned_live_at(b, row, col - 1, rs) + owned_live_at(b, row, col + 1, rs) + owned_live_at(
        b,
        row + 1,
        col - 1,
        rs,
    ) + owned_live_at(b, row + 1, col, rs) + owned_live_at(b, row + 1, col + 1, rs)
}

/// Whether a cell counts as live.
pub fn cell_is_live(c: &Cell) -> (r: bool)
    ensures
        r == is_live(*c),
{
    c.state & 1 == 1
}

/// Reads the cell at `(row, col)`.
pub fn cell_at(board: &Board, row: usize, col: usize) -> (c: Cell)
    requires
        board.wf(),
        row < board.height,
        col < board.width,
    ensures
        c == board@.cell(row as int, col as int),
{
    proof {
        lemma_index_in_bounds(row as int, col as int, board.width as int, board.height as int);
        assert(board.cells.len() == board.cells@.len());
    }
    board.cells[row * board.width + col]
}

/// 1 when `(row, col)` is live, else 0.
fn live_value(board: &Board, row: usize, col: usize) -> (n: u32)
    requires
        board.wf(),
        row < board.height,
        col < board.width,
    ensures
        n == live_at(board@, row as int, col as int),
{
    if cell_is_live(&cell_at(board, row, col)) {
        1
    } else {
        0
    }
}

/// Counts the live cells beside `(row, col)` in its row, and the cell itself
/// unless `exclude_center` holds.
pub fn count_live_row_neighbors(board: &Board, row: usize, col: usize, exclude_center: bool) -> (n:
    u32)
    requires
        board.wf(),
        row < board.height,
        col < board.width,
    ensures
        n == live_in_row(board@, row as int, col as int, !exclude_center),
        n <= 3,
{
    let mut live: u32 = if exclude_center {
        0
    } else {
        live_value(board, row, col)
    };
    if col > 0 {
        live = live + live_value(board, row, col - 1);
    }
    if col + 1 < board.width {
        live = live + live_value(board, row, col + 1);
    }
    live
}

/// Counts the live cells among the eight neighbours of `(row, col)`.
pub fn count_live_neighbors(board: &Board, row: usize, col: usize) -> (n: u32)
    requires
        board.wf(),
        row < board.height,
        col < board.width,
    ensures
        n == live_neighbors(board@, row as int, col as int),
        n <= 8,
{
    let mut live = count_live_row_neighbors(board, row, col, true);
    if row > 0 {
        live = live + count_live_row_neighbors(board, row - 1, col, false);
    }
    if row + 1 < board.height {
        live = live + count_live_row_neighbors(board, row + 1, col, false);
    }
    live
}

} // verus!

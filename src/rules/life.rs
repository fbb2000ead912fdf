//! Conway's Life: a live cell survives with two or three live neighbours and a
//! dead cell is born with exactly three. Bit 1 records that the cell was live
//! in the generation it came from.
use crate::neighborhood::{cell_at, cell_is_live, count_live_neighbors, is_live, live_neighbors};
use crate::rules::{push_binary, random_below, binary_text, Ruleset};
use crate::world::{Board, Cell, Grid};
use vstd::prelude::*;

verus! {

pub struct Life;

/// The state that follows a cell that is `alive` with `n` live neighbours.
pub open spec fn life_state(alive: bool, n: int) -> u8 {
    if alive {
        if n == 2 || n == 3 {
            0b11
        } else {
            0b10
        }
    } else {
        if n == 3 {
            0b01
        } else {
            0b00
        }
    }
}

/// The cell that Life puts at `(row, col)` in the next generation.
pub open spec fn life_next(b: Grid, row: int, col: int) -> Cell {
    Cell {
        ruleset: Ruleset::Life,
        state: life_state(is_live(b.cell(row, col)), live_neighbors(b, row, col)),
    }
}

impl Life {
    pub fn alive() -> (c: Cell)
        ensures
            c == (Cell { ruleset: Ruleset::Life, state: 1 }),
    {
        Cell { ruleset: Ruleset::Life, state: 1 }
    }

    pub fn dead() -> (c: Cell)
        ensures
            c == (Cell { ruleset: Ruleset::Life, state: 0 }),
    {
        Cell { ruleset: Ruleset::Life, state: 0 }
    }

    /// A live or dead cell, drawn at random.
    pub fn random() -> (c: Cell)
        ensures
            c.ruleset == Ruleset::Life,
            c.state < 2,
    {
        Cell { ruleset: Ruleset::Life, state: random_below(0, 2) }
    }

    pub fn next_cell_state(board: &Board, row: usize, col: usize) -> (c: Cell)
        requires
            board.wf(),
            row < board.height,
            col < board.width,
        ensures
            c == life_next(board@, row as int, col as int),
    {
        let live_neighbors = count_live_neighbors(board, row, col);
        let is_alive = cell_is_live(&cell_at(board, row, col));
        let state: u8 = if is_alive {
            if live_neighbors == 2 || live_neighbors == 3 {
                0b11
            } else {
                0b10
            }
        } else {
            if live_neighbors == 3 {
                0b01
            } else {
                0b00
            }
        };
        Cell { ruleset: Ruleset::Life, state }
    }

    /// Appends the state as two or more binary digits.
    pub fn write_debug(output: &mut String, state: u8)
        ensures
            final(output)@ == old(output)@ + binary_text(state as nat, 2),
    {
        push_binary(output, state, 2);
    }
}

} // verus!

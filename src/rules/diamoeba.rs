//! Diamoeba (B35678/S5678): a live cell survives with five to eight live
//! neighbours, and a dead cell is born with three or with five to eight.
use crate::neighborhood::{cell_at, cell_is_live, count_live_neighbors, is_live, live_neighbors};
use crate::rules::{push_binary, random_below, binary_text, Ruleset};
use crate::world::{Board, Cell, Grid};
use vstd::prelude::*;

verus! {

pub struct Diamoeba;

/// The state that follows a cell that is `alive` with `n` live neighbours.
pub open spec fn diamoeba_state(alive: bool, n: int) -> u8 {
    if n >= 5 || (!alive && n == 3) {
        1
    } else {
        0
    }
}

/// The cell that Diamoeba puts at `(row, col)` in the next generation.
pub open spec fn diamoeba_next(b: Grid, row: int, col: int) -> Cell {
    Cell {
        ruleset: Ruleset::Diamoeba,
        state: diamoeba_state(is_live(b.cell(row, col)), live_neighbors(b, row, col)),
    }
}

impl Diamoeba {
    pub fn alive() -> (c: Cell)
        ensures
            c == (Cell { ruleset: Ruleset::Diamoeba, state: 1 }),
    {
        Cell { ruleset: Ruleset::Diamoeba, state: 1 }
    }

    pub fn dead() -> (c: Cell)
        ensures
            c == (Cell { ruleset: Ruleset::Diamoeba, state: 0 }),
    {
        Cell { ruleset: Ruleset::Diamoeba, state: 0 }
    }

    /// A live or dead cell, drawn at random.
    pub fn random() -> (c: Cell)
        ensures
            c.ruleset == Ruleset::Diamoeba,
            c.state < 2,
    {
        Cell { ruleset: Ruleset::Diamoeba, state: random_below(0, 2) }
    }

    pub fn next_cell_state(board: &Board, row: usize, col: usize) -> (c: Cell)
        requires
            board.wf(),
            row < board.height,
            col < board.width,
        ensures
            c == diamoeba_next(board@, row as int, col as int),
    {
        let live_neighbors = count_live_neighbors(board, row, col);
        let is_alive = cell_is_live(&cell_at(board, row, col));
        let state: u8 = if live_neighbors >= 5 || (!is_alive && live_neighbors == 3) {
            1
        } else {
            0
        };
        Cell { ruleset: Ruleset::Diamoeba, state }
    }

    /// Appends the state as two or more binary digits.
    pub fn write_debug(output: &mut String, state: u8)
        ensures
            final(output)@ == old(output)@ + binary_text(state as nat, 2),
    {
        push_binary(output, state, 2);
    }
}

} // verus!

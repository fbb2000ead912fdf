//! Seeds: every live cell dies, and a dead cell is born with exactly two live
//! neighbours.
use crate::neighborhood::{cell_at, cell_is_live, count_live_neighbors, is_live, live_neighbors};
use crate::rules::{push_binary, random_below, binary_text, Ruleset};
use crate::world::{Board, Cell, Grid};
use vstd::prelude::*;

verus! {

pub struct Seeds;

/// How a Seeds cell is shown: any nonzero state is alive.
#[derive(Copy, Clone, Debug, PartialEq, Eq, Structural)]
pub enum SeedsState {
    Dead,
    Alive,
}

/// The cell that Seeds puts at `(row, col)` in the next generation.
pub open spec fn seeds_next(b: Grid, row: int, col: int) -> Cell {
    Cell {
        ruleset: Ruleset::Seeds,
        state: if !is_live(b.cell(row, col)) && live_neighbors(b, row, col) == 2 {
            1
        } else {
            0
        },
    }
}

impl Seeds {
    pub fn alive() -> (c: Cell)
        ensures
            c == (Cell { ruleset: Ruleset::Seeds, state: 1 }),
    {
        Cell { ruleset: Ruleset::Seeds, state: 1 }
    }

    pub fn dead() -> (c: Cell)
        ensures
            c == (Cell { ruleset: Ruleset::Seeds, state: 0 }),
    {
        Cell { ruleset: Ruleset::Seeds, state: 0 }
    }

    /// A live or dead cell, drawn at random.
    pub fn random() -> (c: Cell)
        ensures
            c.ruleset == Ruleset::Seeds,
            c.state < 2,
    {
        Cell { ruleset: Ruleset::Seeds, state: random_below(0, 2) }
    }

    pub fn state(cell: Cell) -> (s: SeedsState)
        ensures
            s == (if cell.state >= 1 {
                SeedsState::Alive
            } else {
                SeedsState::Dead
            }),
    {
        if cell.state >= 1 {
            SeedsState::Alive
        } else {
            SeedsState::Dead
        }
    }

    pub fn next_cell_state(board: &Board, row: usize, col: usize) -> (c: Cell)
        requires
            board.wf(),
            row < board.height,
            col < board.width,
        ensures
            c == seeds_next(board@, row as int, col as int),
    {
        if cell_is_live(&cell_at(board, row, col)) {
            Seeds::dead()
        } else {
            let live_neighbors = count_live_neighbors(board, row, col);
            if live_neighbors == 2 {
                Seeds::alive()
            } else {
                Seeds::dead()
            }
        }
    }

    /// Appends the state as two or more binary digits.
    pub fn write_debug(output: &mut String, state: u8)
        ensures
            final(output)@ == old(output)@ + binary_text(state as nat, 2),
    {
        push_binary(output, state, 2);
    }
}

} // verus!

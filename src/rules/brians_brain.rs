//! Brian's Brain: a firing cell becomes refractory, a refractory cell dies,
//! and a dead cell fires when exactly two of its eight neighbours fire.
//! State 1 is firing (and so live), state 2 refractory, state 0 dead.
use crate::neighborhood::{cell_at, count_live_neighbors, live_neighbors};
use crate::rules::{push_binary, random_below, binary_text, Ruleset};
use crate::world::{Board, Cell, Grid};
use vstd::prelude::*;

verus! {

pub struct BriansBrain;

#[derive(Copy, Clone, Debug, PartialEq, Eq, Structural)]
pub enum BrainState {
    Dead,
    Firing,
    Refractory,
}

/// How a state byte reads: 0 is dead, 1 firing, anything else refractory.
pub open spec fn brain_state(state: u8) -> BrainState {
    if state == 0 {
        BrainState::Dead
    } else if state == 1 {
        BrainState::Firing
    } else {
        BrainState::Refractory
    }
}

/// The cell that Brian's Brain puts at `(row, col)` in the next generation.
pub open spec fn brians_brain_next(b: Grid, row: int, col: int) -> Cell {
    Cell {
        ruleset: Ruleset::BriansBrain,
        state: match brain_state(b.cell(row, col).state) {
            BrainState::Firing => 2,
            BrainState::Refractory => 0,
            BrainState::Dead => if live_neighbors(b, row, col) == 2 {
                1
            } else {
                0
            },
        },
    }
}

impl BriansBrain {
    pub fn firing() -> (c: Cell)
        ensures
            c == (Cell { ruleset: Ruleset::BriansBrain, state: 1 }),
    {
        Cell { ruleset: Ruleset::BriansBrain, state: 1 }
    }

    pub fn refractory() -> (c: Cell)
        ensures
            c == (Cell { ruleset: Ruleset::BriansBrain, state: 2 }),
    {
        Cell { ruleset: Ruleset::BriansBrain, state: 2 }
    }

    pub fn dead() -> (c: Cell)
        ensures
            c == (Cell { ruleset: Ruleset::BriansBrain, state: 0 }),
    {
        Cell { ruleset: Ruleset::BriansBrain, state: 0 }
    }

    /// A dead, firing or refractory cell, drawn at random.
    pub fn random() -> (c: Cell)
        ensures
            c.ruleset == Ruleset::BriansBrain,
            c.state < 3,
    {
        Cell { ruleset: Ruleset::BriansBrain, state: random_below(0, 3) }
    }

    pub fn state(cell: Cell) -> (s: BrainState)
        ensures
            s == brain_state(cell.state),
    {
        if cell.state == 0 {
            BrainState::Dead
        } else if cell.state == 1 {
            BrainState::Firing
        } else {
            BrainState::Refractory
        }
    }

    pub fn next_cell_state(board: &Board, row: usize, col: usize) -> (c: Cell)
        requires
            board.wf(),
            row < board.height,
            col < board.width,
        ensures
            c == brians_brain_next(board@, row as int, col as int),
    {
        match BriansBrain::state(cell_at(board, row, col)) {
            BrainState::Firing => BriansBrain::refractory(),
            BrainState::Refractory => BriansBrain::dead(),
            BrainState::Dead => {
                if count_live_neighbors(board, row, col) == 2 {
                    BriansBrain::firing()
                } else {
                    BriansBrain::dead()
                }
            },
        }
    }

    /// Appends the state as two or more binary digits.
    pub fn write_debug(output: &mut String, state: u8)
        ensures
            final(output)@ == old(output)@ + binary_text(state as nat, 2),
    {
        push_binary(output, state, 2);
    }
}

} // verus!

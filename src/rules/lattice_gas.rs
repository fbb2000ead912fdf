//! A lattice gas: each populated cell carries particles moving up, down, left
//! or right. Every particle moves one cell per generation, two particles that
//! meet head on leave at right angles, and a particle that would leave the
//! grid turns back.
use crate::neighborhood::cell_at;
use crate::rules::{push_binary, random_below, binary_text, Ruleset};
use crate::world::{Board, Cell, Grid};
use vstd::prelude::*;

verus! {

pub struct LatticeGas;

pub const GOING_UP: u8 = 0b10000;

pub const GOING_DOWN: u8 = 0b01000;

pub const GOING_LEFT: u8 = 0b00100;

pub const GOING_RIGHT: u8 = 0b00010;

pub const POPULATED: u8 = 0b00001;

/// The directions in which particles at one cell move.
#[derive(Copy, Clone, Debug, PartialEq, Eq, Structural)]
pub struct Particles {
    pub up: bool,
    pub down: bool,
    pub left: bool,
    pub right: bool,
}

/// Whether the state holds a particle moving in the direction of `mask`.
pub open spec fn heads(state: u8, mask: u8) -> bool {
    state & mask != 0
}

/// The particles arriving at `(row, col)` from its four neighbours.
pub open spec fn incoming(b: Grid, row: int, col: int) -> Particles {
    Particles {
        up: row + 1 < b.height && heads(b.cell(row + 1, col).state, GOING_UP),
        down: row > 0 && heads(b.cell(row - 1, col).state, GOING_DOWN),
        left: col + 1 < b.width && heads(b.cell(row, col + 1).state, GOING_LEFT),
        right: col > 0 && heads(b.cell(row, col - 1).state, GOING_RIGHT),
    }
}

/// A head-on pair, and nothing else, leaves at right angles.
pub open spec fn collide(p: Particles) -> Particles {
    if p.up && p.down && !p.left && !p.right {
        Particles { up: false, down: false, left: true, right: true }
    } else if p.left && p.right && !p.up && !p.down {
        Particles { up: true, down: true, left: false, right: false }
    } else {
        p
    }
}

/// At the grid's edge, a particle heading out turns back in.
pub open spec fn reflect(p: Particles, row: int, col: int, w: int, h: int) -> Particles {
    let q = if col == 0 && p.left {
        Particles { left: false, right: true, ..p }
    } else if col == w - 1 && p.right {
        Particles { left: true, right: false, ..p }
    } else {
        p
    };
    if row == 0 && q.up {
        Particles { up: false, down: true, ..q }
    } else if row == h - 1 && q.down {
        Particles { up: true, down: false, ..q }
    } else {
        q
    }
}

/// The state byte for a set of particles: their direction bits, and the
/// populated bit when there is at least one.
pub open spec fn encode(p: Particles) -> u8 {
    let dirs = (if p.up {
        GOING_UP
    } else {
        0
    }) + (if p.down {
        GOING_DOWN
    } else {
        0
    }) + (if p.left {
        GOING_LEFT
    } else {
        0
    }) + (if p.right {
        GOING_RIGHT
    } else {
        0
    });
    if dirs == 0 {
        0
    } else {
        (dirs + POPULATED) as u8
    }
}

/// The cell that the lattice gas puts at `(row, col)` in the next generation.
pub open spec fn lattice_gas_next(b: Grid, row: int, col: int) -> Cell {
    Cell {
        ruleset: Ruleset::LatticeGas,
        state: encode(
            reflect(collide(incoming(b, row, col)), row, col, b.width as int, b.height as int),
        ),
    }
}

/// The direction bit numbered `k`: 1 right, 2 left, 3 down, anything else up.
pub open spec fn direction_of(k: u8) -> u8 {
    if k == 1 {
        GOING_RIGHT
    } else if k == 2 {
        GOING_LEFT
    } else if k == 3 {
        GOING_DOWN
    } else {
        GOING_UP
    }
}

/// A populated state with a single particle.
pub open spec fn single_particle(state: u8) -> bool {
    state == GOING_UP + POPULATED || state == GOING_DOWN + POPULATED || state == GOING_LEFT
        + POPULATED || state == GOING_RIGHT + POPULATED
}

impl LatticeGas {
    pub fn empty() -> (c: Cell)
        ensures
            c == (Cell { ruleset: Ruleset::LatticeGas, state: 0 }),
    {
        Cell { ruleset: Ruleset::LatticeGas, state: 0 }
    }

    /// An empty cell or a cell with one particle, drawn at random.
    pub fn random() -> (c: Cell)
        ensures
            c.ruleset == Ruleset::LatticeGas,
            c.state == 0 || single_particle(c.state),
    {
        let coin = random_below(0, 2);
        let k = random_below(1, 5);
        LatticeGas::lattice_gas_cell(coin, k)
    }

    /// A cell with one particle moving in a random direction.
    pub fn random_populated() -> (c: Cell)
        ensures
            c.ruleset == Ruleset::LatticeGas,
            single_particle(c.state),
    {
        LatticeGas::populated_cell(random_below(1, 5))
    }

    /// The direction bit numbered `k`: 1 right, 2 left, 3 down, 4 up.
    pub fn direction(k: u8) -> (d: u8)
        requires
            1 <= k < 5,
        ensures
            d == direction_of(k),
    {
        if k == 1 {
            GOING_RIGHT
        } else if k == 2 {
            GOING_LEFT
        } else if k == 3 {
            GOING_DOWN
        } else {
            GOING_UP
        }
    }

    /// A cell with one particle moving in direction `k`.
    pub fn populated_cell(k: u8) -> (c: Cell)
        requires
            1 <= k < 5,
        ensures
            c == (Cell { ruleset: Ruleset::LatticeGas, state: (direction_of(k) + POPULATED) as u8 }),
            single_particle(c.state),
    {
        Cell { ruleset: Ruleset::LatticeGas, state: LatticeGas::direction(k) + POPULATED }
    }

    /// An empty cell when `coin` is 0, else a cell with one particle moving in
    /// direction `k`.
    pub fn lattice_gas_cell(coin: u8, k: u8) -> (c: Cell)
        requires
            coin < 2,
            1 <= k < 5,
        ensures
            c == (Cell {
                ruleset: Ruleset::LatticeGas,
                state: if coin == 1 {
                    (direction_of(k) + POPULATED) as u8
                } else {
                    0
                },
            }),
            c.state == 0 || single_particle(c.state),
    {
        if coin == 1 {
            LatticeGas::populated_cell(k)
        } else {
            LatticeGas::empty()
        }
    }

    pub fn going_up(cell: Cell) -> (d: u8)
        ensures
            d == cell.state & GOING_UP,
    {
        cell.state & GOING_UP
    }

    pub fn going_down(cell: Cell) -> (d: u8)
        ensures
            d == cell.state & GOING_DOWN,
    {
        cell.state & GOING_DOWN
    }

    pub fn going_left(cell: Cell) -> (d: u8)
        ensures
            d == cell.state & GOING_LEFT,
    {
        cell.state & GOING_LEFT
    }

    pub fn going_right(cell: Cell) -> (d: u8)
        ensures
            d == cell.state & GOING_RIGHT,
    {
        cell.state & GOING_RIGHT
    }

    pub fn next_cell_state(board: &Board, row: usize, col: usize) -> (c: Cell)
        requires
            board.wf(),
            row < board.height,
            col < board.width,
        ensures
            c == lattice_gas_next(board@, row as int, col as int),
    {
        let w = board.width;
        let h = board.height;
        let p = Particles {
            up: row + 1 < h && LatticeGas::going_up(cell_at(board, row + 1, col)) != 0,
            down: row > 0 && LatticeGas::going_down(cell_at(board, row - 1, col)) != 0,
            left: col + 1 < w && LatticeGas::going_left(cell_at(board, row, col + 1)) != 0,
            right: col > 0 && LatticeGas::going_right(cell_at(board, row, col - 1)) != 0,
        };
        let p = if p.up && p.down && !p.left && !p.right {
            Particles { up: false, down: false, left: true, right: true }
        } else if p.left && p.right && !p.up && !p.down {
            Particles { up: true, down: true, left: false, right: false }
        } else {
            p
        };
        let p = if col == 0 && p.left {
            Particles { left: false, right: true, ..p }
        } else if col == w - 1 && p.right {
            Particles { left: true, right: false, ..p }
        } else {
            p
        };
        let p = if row == 0 && p.up {
            Particles { up: false, down: true, ..p }
        } else if row == h - 1 && p.down {
            Particles { up: true, down: false, ..p }
        } else {
            p
        };
        let mut state: u8 = 0;
        if p.up {
            state = state + GOING_UP;
        }
        if p.down {
            state = state + GOING_DOWN;
        }
        if p.left {
            state = state + GOING_LEFT;
        }
        if p.right {
            state = state + GOING_RIGHT;
        }
        if state != 0 {
            state = state + POPULATED;
        }
        Cell { ruleset: Ruleset::LatticeGas, state }
    }

    /// Appends the state as four or more binary digits.
    pub fn write_debug(output: &mut String, state: u8)
        ensures
            final(output)@ == old(output)@ + binary_text(state as nat, 4),
    {
        push_binary(output, state, 4);
    }
}

} // verus!

//! The closed set of rulesets and the dispatch from a ruleset to its variant.
pub mod anti_life;
pub mod brians_brain;
pub mod diamoeba;
pub mod lattice_gas;
pub mod life;
pub mod seeds;

use crate::world::{Board, Cell, Grid};
use anti_life::{anti_life_next, AntiLife};
use brians_brain::{brians_brain_next, BriansBrain};
use diamoeba::{diamoeba_next, Diamoeba};
use lattice_gas::{lattice_gas_next, single_particle, LatticeGas};
use life::{life_next, Life};
use seeds::{seeds_next, Seeds};
use vstd::prelude::*;
use vstd::string::*;

verus! {

/// Identifies one ruleset. The declaration order is the order used for
/// cycling with `next` and for breaking ties between competing rulesets.
#[derive(Copy, Clone, Debug, PartialEq, Eq, Structural, PartialOrd, Ord, Hash)]
pub enum Ruleset {
    Life,
    AntiLife,
    BriansBrain,
    Seeds,
    Diamoeba,
    LatticeGas,
}

/// Number of rulesets.
pub const RULESET_COUNT: usize = 6;

/// Position of a ruleset in declaration order.
pub open spec fn ruleset_index(r: Ruleset) -> int {
    match r {
        Ruleset::Life => 0,
        Ruleset::AntiLife => 1,
        Ruleset::BriansBrain => 2,
        Ruleset::Seeds => 3,
        Ruleset::Diamoeba => 4,
        Ruleset::LatticeGas => 5,
    }
}

/// The ruleset at a position in declaration order (positions wrap).
pub open spec fn ruleset_at(i: int) -> Ruleset {
    let k = i % 6;
    if k == 0 {
        Ruleset::Life
    } else if k == 1 {
        Ruleset::AntiLife
    } else if k == 2 {
        Ruleset::BriansBrain
    } else if k == 3 {
        Ruleset::Seeds
    } else if k == 4 {
        Ruleset::Diamoeba
    } else {
        Ruleset::LatticeGas
    }
}

pub proof fn lemma_ruleset_at_index(r: Ruleset)
    ensures
        ruleset_at(ruleset_index(r)) == r,
        0 <= ruleset_index(r) < 6,
{
}

impl Default for Ruleset {
    fn default() -> (r: Ruleset)
        ensures
            r == Ruleset::Life,
    {
        Ruleset::Life
    }
}

impl Ruleset {
    /// The ruleset at position `i` of the declaration order.
    pub fn from_index(i: usize) -> (r: Ruleset)
        requires
            i < RULESET_COUNT,
        ensures
            r == ruleset_at(i as int),
            ruleset_index(r) == i,
    {
        if i == 0 {
            Ruleset::Life
        } else if i == 1 {
            Ruleset::AntiLife
        } else if i == 2 {
            Ruleset::BriansBrain
        } else if i == 3 {
            Ruleset::Seeds
        } else if i == 4 {
            Ruleset::Diamoeba
        } else {
            Ruleset::LatticeGas
        }
    }

    /// Position of this ruleset in declaration order.
    pub fn index(&self) -> (r: usize)
        ensures
            r == ruleset_index(*self),
    {
        match self {
            Ruleset::Life => 0,
            Ruleset::AntiLife => 1,
            Ruleset::BriansBrain => 2,
            Ruleset::Seeds => 3,
            Ruleset::Diamoeba => 4,
            Ruleset::LatticeGas => 5,
        }
    }

    /// The ruleset declared after this one, wrapping from the last to the first.
    pub fn next(&self) -> (r: Ruleset)
        ensures
            r == ruleset_at(ruleset_index(*self) + 1),
    {
        Ruleset::from_index((self.index() + 1) % RULESET_COUNT)
    }
}

/// The cell that ruleset `rs` puts at `(row, col)` of `b` in the next
/// generation.
pub open spec fn transition(rs: Ruleset, b: Grid, row: int, col: int) -> Cell {
    match rs {
        Ruleset::Life => life_next(b, row, col),
        Ruleset::AntiLife => anti_life_next(b, row, col),
        Ruleset::BriansBrain => brians_brain_next(b, row, col),
        Ruleset::Seeds => seeds_next(b, row, col),
        Ruleset::Diamoeba => diamoeba_next(b, row, col),
        Ruleset::LatticeGas => lattice_gas_next(b, row, col),
    }
}

/// The canonical dead cell of a ruleset. AntiLife is Life inverted, so its
/// dead cell has the live bit set.
pub open spec fn off_cell(rs: Ruleset) -> Cell {
    Cell {
        ruleset: rs,
        state: match rs {
            Ruleset::AntiLife => 1,
            _ => 0,
        },
    }
}

/// Whether `c` is the canonical live cell of `rs`. A lattice gas cell is
/// painted live with one particle moving in any direction.
pub open spec fn is_on_cell(rs: Ruleset, c: Cell) -> bool {
    c.ruleset == rs && match rs {
        Ruleset::AntiLife => c.state == 0,
        Ruleset::LatticeGas => single_particle(c.state),
        _ => c.state == 1,
    }
}

/// Whether `c` is a starting cell that `random` may draw for `rs`.
pub open spec fn is_random_cell(rs: Ruleset, c: Cell) -> bool {
    c.ruleset == rs && match rs {
        Ruleset::AntiLife => c.state < 4,
        Ruleset::BriansBrain => c.state < 3,
        Ruleset::LatticeGas => c.state == 0 || single_particle(c.state),
        _ => c.state < 2,
    }
}

/// The name of a ruleset.
pub open spec fn ruleset_name(rs: Ruleset) -> Seq<char> {
    match rs {
        Ruleset::Life => "Life"@,
        Ruleset::AntiLife => "AntiLife"@,
        Ruleset::BriansBrain => "BriansBrain"@,
        Ruleset::Seeds => "Seeds"@,
        Ruleset::Diamoeba => "Diamoeba"@,
        Ruleset::LatticeGas => "LatticeGas"@,
    }
}

/// The fewest binary digits a ruleset shows of a state.
pub open spec fn debug_width(rs: Ruleset) -> nat {
    match rs {
        Ruleset::LatticeGas => 4,
        _ => 2,
    }
}

/// The diagnostic text of a cell rendered by ruleset `rs`.
pub open spec fn debug_text(rs: Ruleset, c: Cell) -> Seq<char> {
    ruleset_name(c.ruleset) + "("@ + binary_text(c.state as nat, debug_width(rs)) + ")"@
}

pub open spec fn binary_digit(bit: nat) -> char {
    if bit == 0 {
        '0'
    } else {
        '1'
    }
}

/// `n` in binary, padded with leading zeros to at least `width` digits.
pub open spec fn binary_text(n: nat, width: nat) -> Seq<char>
    decreases n + width,
{
    if n == 0 && width == 0 {
        Seq::empty()
    } else {
        binary_text(n / 2, if width > 0 {
            (width - 1) as nat
        } else {
            0
        }) + seq![binary_digit(n % 2)]
    }
}

/// Appends `n` in binary, padded with leading zeros to at least `width` digits.
pub fn push_binary(output: &mut String, n: u8, width: u8)
    ensures
        final(output)@ == old(output)@ + binary_text(n as nat, width as nat),
    decreases n + width,
{
    if n == 0 && width == 0 {
        assert(binary_text(0, 0) =~= Seq::empty());
        assert(output@ + Seq::<char>::empty() =~= output@);
        return;
    }
    let rest: u8 = if width > 0 {
        width - 1
    } else {
        0
    };
    push_binary(output, n / 2, rest);
    if n % 2 == 0 {
        output.append("0");
    } else {
        output.append("1");
    }
    proof {
        reveal_strlit("0");
        reveal_strlit("1");
        assert(output@ =~= old(output)@ + binary_text(n as nat, width as nat));
    }
}

/// Relies on nannou::rand::random_range: for `lo < hi` it draws a value in
/// `[lo, hi)` from the thread-local generator.
#[verifier::external_body]
pub(crate) fn random_below(lo: u8, hi: u8) -> (r: u8)
    requires
        lo < hi,
    ensures
        lo <= r < hi,
{
    nannou::rand::random_range(lo, hi)
}

impl Ruleset {
    /// The canonical live cell of this ruleset, used when painting.
    pub fn on(&self) -> (c: Cell)
        ensures
            is_on_cell(*self, c),
    {
        match self {
            Ruleset::Life => Life::alive(),
            Ruleset::AntiLife => AntiLife::dead(),
            Ruleset::BriansBrain => BriansBrain::firing(),
            Ruleset::Seeds => Seeds::alive(),
            Ruleset::Diamoeba => Diamoeba::alive(),
            Ruleset::LatticeGas => LatticeGas::random_populated(),
        }
    }

    /// The canonical dead cell of this ruleset, used when clearing.
    pub fn off(&self) -> (c: Cell)
        ensures
            c == off_cell(*self),
    {
        match self {
            Ruleset::Life => Life::dead(),
            Ruleset::AntiLife => AntiLife::alive(),
            Ruleset::BriansBrain => BriansBrain::dead(),
            Ruleset::Seeds => Seeds::dead(),
            Ruleset::Diamoeba => Diamoeba::dead(),
            Ruleset::LatticeGas => LatticeGas::empty(),
        }
    }

    /// A starting cell of this ruleset, drawn at random.
    pub fn random(&self) -> (c: Cell)
        ensures
            is_random_cell(*self, c),
    {
        match self {
            Ruleset::Life => Life::random(),
            Ruleset::AntiLife => AntiLife::random(),
            Ruleset::BriansBrain => BriansBrain::random(),
            Ruleset::Seeds => Seeds::random(),
            Ruleset::Diamoeba => Diamoeba::random(),
            Ruleset::LatticeGas => LatticeGas::random(),
        }
    }

    /// The cell that this ruleset puts at `(row, col)` in the next generation.
    pub fn next_cell_state(&self, board: &Board, row: usize, col: usize) -> (c: Cell)
        requires
            board.wf(),
            row < board.height,
            col < board.width,
        ensures
            c == transition(*self, board@, row as int, col as int),
            c.ruleset == *self,
    {
        match self {
            Ruleset::Life => Life::next_cell_state(board, row, col),
            Ruleset::AntiLife => AntiLife::next_cell_state(board, row, col),
            Ruleset::BriansBrain => BriansBrain::next_cell_state(board, row, col),
            Ruleset::Seeds => Seeds::next_cell_state(board, row, col),
            Ruleset::Diamoeba => Diamoeba::next_cell_state(board, row, col),
            Ruleset::LatticeGas => LatticeGas::next_cell_state(board, row, col),
        }
    }

    /// The name of this ruleset.
    pub fn name(&self) -> (s: String)
        ensures
            s@ == ruleset_name(*self),
    {
        match self {
            Ruleset::Life => String::from_str("Life"),
            Ruleset::AntiLife => String::from_str("AntiLife"),
            Ruleset::BriansBrain => String::from_str("BriansBrain"),
            Ruleset::Seeds => String::from_str("Seeds"),
            Ruleset::Diamoeba => String::from_str("Diamoeba"),
            Ruleset::LatticeGas => String::from_str("LatticeGas"),
        }
    }

    /// A short diagnostic text for `cell`: the name of the cell's ruleset and,
    /// in parentheses, its state in binary as this ruleset shows it.
    pub fn write_debug(&self, cell: Cell) -> (s: String)
        ensures
            s@ == debug_text(*self, cell),
    {
        let mut output = cell.ruleset.name();
        output.append("(");
        match self {
            Ruleset::Life => Life::write_debug(&mut output, cell.state),
            Ruleset::AntiLife => AntiLife::write_debug(&mut output, cell.state),
            Ruleset::BriansBrain => BriansBrain::write_debug(&mut output, cell.state),
            Ruleset::Seeds => Seeds::write_debug(&mut output, cell.state),
            Ruleset::Diamoeba => Diamoeba::write_debug(&mut output, cell.state),
            Ruleset::LatticeGas => LatticeGas::write_debug(&mut output, cell.state),
        }
        output.append(")");
        output
    }
}

} // verus!

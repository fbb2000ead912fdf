use cellular_sandbox::rules::anti_life::AntiLife;
use cellular_sandbox::rules::brians_brain::{BrainState, BriansBrain};
use cellular_sandbox::rules::diamoeba::Diamoeba;
use cellular_sandbox::rules::lattice_gas::{
    LatticeGas, GOING_DOWN, GOING_LEFT, GOING_RIGHT, GOING_UP, POPULATED,
};
use cellular_sandbox::rules::life::Life;
use cellular_sandbox::rules::seeds::{Seeds, SeedsState};
use cellular_sandbox::rules::Ruleset;
use cellular_sandbox::world::{Board, Cell};

fn uniform_board(ruleset: Ruleset, state: u8, width: usize, height: usize) -> Board {
    Board { cells: vec![Cell { ruleset, state }; width * height], width, height }
}

fn set(board: &mut Board, row: usize, col: usize, state: u8) {
    let idx = row * board.width + col;
    board.cells[idx].state = state;
}

#[test]
fn next_cycles_through_rulesets_and_wraps() {
    assert_eq!(Ruleset::Life.next(), Ruleset::AntiLife);
    assert_eq!(Ruleset::AntiLife.next(), Ruleset::BriansBrain);
    assert_eq!(Ruleset::BriansBrain.next(), Ruleset::Seeds);
    assert_eq!(Ruleset::Seeds.next(), Ruleset::Diamoeba);
    assert_eq!(Ruleset::Diamoeba.next(), Ruleset::LatticeGas);
    assert_eq!(Ruleset::LatticeGas.next(), Ruleset::Life);
    assert_eq!(Ruleset::default(), Ruleset::Life);
}

#[test]
fn on_and_off_are_canonical_cells() {
    assert_eq!(Ruleset::Life.on(), Cell { ruleset: Ruleset::Life, state: 1 });
    assert_eq!(Ruleset::Life.off(), Cell { ruleset: Ruleset::Life, state: 0 });
    assert_eq!(Ruleset::AntiLife.on(), Cell { ruleset: Ruleset::AntiLife, state: 0 });
    assert_eq!(Ruleset::AntiLife.off(), Cell { ruleset: Ruleset::AntiLife, state: 1 });
    assert_eq!(Ruleset::BriansBrain.on(), BriansBrain::firing());
    assert_eq!(Ruleset::BriansBrain.off(), BriansBrain::dead());
    assert_eq!(Ruleset::Seeds.on(), Seeds::alive());
    assert_eq!(Ruleset::Seeds.off(), Seeds::dead());
    assert_eq!(Ruleset::Diamoeba.on(), Diamoeba::alive());
    assert_eq!(Ruleset::Diamoeba.off(), Diamoeba::dead());
    assert_eq!(Ruleset::LatticeGas.off(), LatticeGas::empty());
    let on = Ruleset::LatticeGas.on();
    assert_eq!(on.ruleset, Ruleset::LatticeGas);
    assert!([GOING_UP, GOING_DOWN, GOING_LEFT, GOING_RIGHT].contains(&(on.state - POPULATED)));
    assert_eq!(Cell::default(), Cell { ruleset: Ruleset::Life, state: 0 });
}

#[test]
fn random_cells_are_valid_and_vary() {
    let mut seen = Vec::new();
    for _ in 0..400 {
        let c = LatticeGas::random_populated();
        assert_eq!(c.ruleset, Ruleset::LatticeGas);
        assert_eq!(c.state & POPULATED, POPULATED);
        if !seen.contains(&c.state) {
            seen.push(c.state);
        }
        let r = Ruleset::BriansBrain.random();
        assert_eq!(r.ruleset, Ruleset::BriansBrain);
        assert!(r.state < 3);
        let g = Ruleset::LatticeGas.random();
        assert!(g.state == 0 || g.state & POPULATED == POPULATED);
        assert!(Ruleset::AntiLife.random().state < 4);
        assert!(Life::random().state < 2);
        assert!(Seeds::random().state < 2);
        assert!(Diamoeba::random().state < 2);
    }
    assert_eq!(seen.len(), 4);
}

#[test]
fn write_debug_renders_name_and_binary_state() {
    assert_eq!(Ruleset::Life.write_debug(Cell { ruleset: Ruleset::Life, state: 3 }), "Life(11)");
    assert_eq!(Ruleset::Seeds.write_debug(Seeds::dead()), "Seeds(00)");
    assert_eq!(
        Ruleset::LatticeGas.write_debug(Cell { ruleset: Ruleset::LatticeGas, state: 0b10001 }),
        "LatticeGas(10001)"
    );
    assert_eq!(Ruleset::LatticeGas.write_debug(LatticeGas::empty()), "LatticeGas(0000)");
    assert_eq!(
        Ruleset::BriansBrain.write_debug(BriansBrain::refractory()),
        "BriansBrain(10)"
    );
    let mut s = String::from("x");
    AntiLife::write_debug(&mut s, 5);
    assert_eq!(s, "x101");
}

#[test]
fn life_blinker_turns() {
    let mut board = uniform_board(Ruleset::Life, 0, 5, 5);
    set(&mut board, 2, 1, 1);
    set(&mut board, 2, 2, 1);
    set(&mut board, 2, 3, 1);
    assert_eq!(Life::next_cell_state(&board, 1, 2).state, 0b01);
    assert_eq!(Life::next_cell_state(&board, 2, 2).state, 0b11);
    assert_eq!(Life::next_cell_state(&board, 2, 1).state, 0b10);
    assert_eq!(Life::next_cell_state(&board, 0, 0).state, 0b00);
}

#[test]
fn life_isolated_cell_dies() {
    let mut board = uniform_board(Ruleset::Life, 0, 3, 3);
    set(&mut board, 1, 1, 1);
    let next = Ruleset::Life.next_cell_state(&board, 1, 1);
    assert_eq!(next, Cell { ruleset: Ruleset::Life, state: 0b10 });
}

#[test]
fn anti_life_counts_and_thresholds() {
    // A dead AntiLife cell with no live neighbour is born.
    let board = uniform_board(Ruleset::AntiLife, 0, 3, 3);
    assert_eq!(AntiLife::next_cell_state(&board, 1, 1).state, 0b01);
    // A live cell with exactly five live neighbours dies.
    let mut board = uniform_board(Ruleset::AntiLife, 1, 3, 3);
    set(&mut board, 0, 0, 0);
    set(&mut board, 0, 1, 0);
    set(&mut board, 0, 2, 0);
    assert_eq!(AntiLife::next_cell_state(&board, 1, 1).state, 0b10);
    // With six it survives; a dead cell with six stays dead.
    set(&mut board, 0, 2, 1);
    assert_eq!(AntiLife::next_cell_state(&board, 1, 1).state, 0b11);
    set(&mut board, 1, 1, 0);
    assert_eq!(AntiLife::next_cell_state(&board, 1, 1).state, 0b00);
    // Off the grid counts as absent: a corner of an all-live board has three.
    let board = uniform_board(Ruleset::AntiLife, 1, 3, 3);
    assert_eq!(AntiLife::next_cell_state(&board, 0, 0).state, 0b11);
}

#[test]
fn seeds_live_cell_always_dies() {
    let mut board = uniform_board(Ruleset::Seeds, 0, 3, 3);
    set(&mut board, 1, 1, 1);
    set(&mut board, 0, 0, 1);
    set(&mut board, 0, 2, 1);
    assert_eq!(Seeds::next_cell_state(&board, 1, 1), Seeds::dead());
    assert_eq!(Seeds::next_cell_state(&board, 0, 1), Seeds::dead());
    set(&mut board, 1, 1, 0);
    assert_eq!(Seeds::next_cell_state(&board, 1, 1), Seeds::alive());
    assert_eq!(Seeds::state(Seeds::alive()), SeedsState::Alive);
    assert_eq!(Seeds::state(Seeds::dead()), SeedsState::Dead);
}

#[test]
fn brians_brain_firing_refractory_dead() {
    let mut board = uniform_board(Ruleset::BriansBrain, 1, 3, 3);
    let first = BriansBrain::next_cell_state(&board, 1, 1);
    assert_eq!(first, BriansBrain::refractory());
    set(&mut board, 1, 1, first.state);
    let second = BriansBrain::next_cell_state(&board, 1, 1);
    assert_eq!(second, BriansBrain::dead());
    assert_eq!(BriansBrain::state(first), BrainState::Refractory);
    // A dead cell fires with exactly two firing neighbours.
    let mut board = uniform_board(Ruleset::BriansBrain, 0, 3, 3);
    set(&mut board, 0, 0, 1);
    set(&mut board, 2, 2, 1);
    set(&mut board, 0, 1, 2);
    assert_eq!(BriansBrain::next_cell_state(&board, 1, 1), BriansBrain::firing());
    set(&mut board, 2, 1, 1);
    assert_eq!(BriansBrain::next_cell_state(&board, 1, 1), BriansBrain::dead());
}

#[test]
fn diamoeba_birth_and_survival() {
    let mut board = uniform_board(Ruleset::Diamoeba, 0, 3, 3);
    set(&mut board, 0, 0, 1);
    set(&mut board, 0, 1, 1);
    set(&mut board, 0, 2, 1);
    assert_eq!(Diamoeba::next_cell_state(&board, 1, 1), Diamoeba::alive());
    set(&mut board, 1, 1, 1);
    assert_eq!(Diamoeba::next_cell_state(&board, 1, 1), Diamoeba::dead());
    set(&mut board, 1, 0, 1);
    set(&mut board, 1, 2, 1);
    assert_eq!(Diamoeba::next_cell_state(&board, 1, 1), Diamoeba::alive());
}

#[test]
fn lattice_gas_moves_collides_and_reflects() {
    // A particle moving right arrives at the cell to its right.
    let mut board = uniform_board(Ruleset::LatticeGas, 0, 3, 3);
    set(&mut board, 1, 0, GOING_RIGHT | POPULATED);
    assert_eq!(LatticeGas::next_cell_state(&board, 1, 1).state, GOING_RIGHT | POPULATED);
    assert_eq!(LatticeGas::next_cell_state(&board, 1, 0).state, 0);
    // Head-on up and down leave as left and right.
    let mut board = uniform_board(Ruleset::LatticeGas, 0, 3, 3);
    set(&mut board, 0, 1, GOING_DOWN | POPULATED);
    set(&mut board, 2, 1, GOING_UP | POPULATED);
    assert_eq!(
        LatticeGas::next_cell_state(&board, 1, 1).state,
        GOING_LEFT | GOING_RIGHT | POPULATED
    );
    // At the left edge a particle heading left turns right.
    let mut board = uniform_board(Ruleset::LatticeGas, 0, 3, 3);
    set(&mut board, 1, 1, GOING_LEFT | POPULATED);
    assert_eq!(LatticeGas::next_cell_state(&board, 1, 0).state, GOING_RIGHT | POPULATED);
    // At the top edge a particle heading up turns down.
    let mut board = uniform_board(Ruleset::LatticeGas, 0, 3, 3);
    set(&mut board, 1, 2, GOING_UP | POPULATED);
    assert_eq!(LatticeGas::next_cell_state(&board, 0, 2).state, GOING_DOWN | POPULATED);
    let c = Cell { ruleset: Ruleset::LatticeGas, state: 0b11111 };
    assert_eq!(LatticeGas::going_up(c), GOING_UP);
    assert_eq!(LatticeGas::going_down(c), GOING_DOWN);
    assert_eq!(LatticeGas::going_left(c), GOING_LEFT);
    assert_eq!(LatticeGas::going_right(c), GOING_RIGHT);
}

#[test]
fn single_cell_boards_have_no_neighbours() {
    let board = uniform_board(Ruleset::Life, 1, 1, 1);
    assert_eq!(Life::next_cell_state(&board, 0, 0).state, 0b10);
    let board = uniform_board(Ruleset::AntiLife, 0, 1, 1);
    assert_eq!(AntiLife::next_cell_state(&board, 0, 0).state, 0b01);
    let board = uniform_board(Ruleset::LatticeGas, GOING_LEFT | POPULATED, 1, 1);
    assert_eq!(LatticeGas::next_cell_state(&board, 0, 0).state, 0);
    // One row: only left and right neighbours count.
    let board = uniform_board(Ruleset::Seeds, 1, 4, 1);
    let mut b = board.clone();
    b.cells[1].state = 0;
    assert_eq!(Seeds::next_cell_state(&b, 0, 1), Seeds::alive());
    // One column: only the cells above and below count.
    let mut b = uniform_board(Ruleset::Seeds, 1, 1, 4);
    b.cells[2].state = 0;
    assert_eq!(Seeds::next_cell_state(&b, 2, 0), Seeds::alive());
    b.cells[0].state = 0;
    assert_eq!(Seeds::next_cell_state(&b, 0, 0), Seeds::dead());
}

#[test]
fn lattice_gas_cells_from_draws() {
    assert_eq!(LatticeGas::direction(1), GOING_RIGHT);
    assert_eq!(LatticeGas::direction(2), GOING_LEFT);
    assert_eq!(LatticeGas::direction(3), GOING_DOWN);
    assert_eq!(LatticeGas::direction(4), GOING_UP);
    assert_eq!(
        LatticeGas::populated_cell(3),
        Cell { ruleset: Ruleset::LatticeGas, state: GOING_DOWN | POPULATED }
    );
    assert_eq!(LatticeGas::lattice_gas_cell(0, 2), LatticeGas::empty());
    assert_eq!(
        LatticeGas::lattice_gas_cell(1, 2),
        Cell { ruleset: Ruleset::LatticeGas, state: 0b00101 }
    );
    assert_eq!(
        LatticeGas::lattice_gas_cell(1, 4),
        Cell { ruleset: Ruleset::LatticeGas, state: 0b10001 }
    );
}

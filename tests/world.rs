use cellular_sandbox::rules::Ruleset;
use cellular_sandbox::world::{Cell, World};

fn paint_ruleset(world: &mut World, idx: usize, ruleset: Ruleset) {
    let (board, next_board) = world.this_board_and_next();
    board.cells[idx].ruleset = ruleset;
    next_board.cells[idx].ruleset = ruleset;
}

fn paint_state(world: &mut World, idx: usize, state: u8) {
    world.board_mut().cells[idx].state = state;
}

fn step(world: &mut World, growth: bool) {
    world.generate(growth);
    world.swap();
}

fn live_positions(world: &World) -> Vec<(usize, usize)> {
    let board = world.board();
    let mut out = Vec::new();
    for row in 0..board.height {
        for col in 0..board.width {
            if board.cells[row * board.width + col].state & 1 == 1 {
                out.push((row, col));
            }
        }
    }
    out
}

/// Five live AntiLife and three live Life cells around a dead Life centre.
fn contested_world() -> World {
    let mut world = World::new(3, 3);
    for idx in [3, 5, 6, 7, 8] {
        paint_ruleset(&mut world, idx, Ruleset::AntiLife);
        paint_state(&mut world, idx, 1);
    }
    for idx in [0, 1, 2] {
        paint_state(&mut world, idx, 1);
    }
    world
}

#[test]
fn new_world_is_all_default_cells() {
    let world = World::new(4, 3);
    let board = world.board();
    assert_eq!(board.width, 4);
    assert_eq!(board.height, 3);
    assert_eq!(board.cells.len(), 12);
    assert!(board.cells.iter().all(|c| *c == Cell { ruleset: Ruleset::Life, state: 0 }));
    assert_eq!(world.temporary_rulesets.len(), 12);
    assert_eq!(world.temporary_states.len(), 12);
}

#[test]
fn life_dead_board_stays_dead() {
    let mut world = World::new(3, 3);
    step(&mut world, false);
    assert!(world.board().cells.iter().all(|c| c.state == 0));
}

#[test]
fn life_isolated_cell_dies_in_world() {
    let mut world = World::new(3, 3);
    paint_state(&mut world, 4, 1);
    step(&mut world, false);
    assert!(live_positions(&world).is_empty());
}

#[test]
fn glider_moves_one_cell_diagonally_in_four_generations() {
    let mut world = World::new(8, 8);
    let glider = [(0, 1), (1, 2), (2, 0), (2, 1), (2, 2)];
    for (row, col) in glider {
        paint_state(&mut world, row * 8 + col, 1);
    }
    for _ in 0..4 {
        step(&mut world, false);
    }
    let expected: Vec<(usize, usize)> = glider.iter().map(|(r, c)| (r + 1, c + 1)).collect();
    let mut got = live_positions(&world);
    got.sort();
    let mut want = expected;
    want.sort();
    assert_eq!(got, want);
}

#[test]
fn growth_conquest_majority_wins() {
    let mut world = contested_world();
    world.generate(true);
    // Ownership changes at once on the shown board.
    assert_eq!(world.board().cells[4].ruleset, Ruleset::AntiLife);
    world.swap();
    // AntiLife's own rule: a dead cell with eight live neighbours is born.
    assert_eq!(world.board().cells[4], Cell { ruleset: Ruleset::AntiLife, state: 1 });
}

#[test]
fn no_growth_keeps_owner_and_own_rule() {
    let mut world = contested_world();
    step(&mut world, false);
    // Life's own rule: a dead cell with eight live neighbours stays dead.
    assert_eq!(world.board().cells[4], Cell { ruleset: Ruleset::Life, state: 0 });
}

#[test]
fn override_uses_only_its_ruleset_for_one_tick() {
    let mut world = contested_world();
    world.temporary_rulesets[4] = Some(Ruleset::Seeds);
    world.generate(true);
    // The owner stays Life in both boards; growth did not settle the cell.
    assert_eq!(world.board().cells[4].ruleset, Ruleset::Life);
    world.swap();
    // Seeds: a dead cell with eight live neighbours stays dead.
    assert_eq!(world.board().cells[4], Cell { ruleset: Ruleset::Life, state: 0 });
    // Overrides are not cleared by a generation.
    assert_eq!(world.temporary_rulesets[4], Some(Ruleset::Seeds));
}

#[test]
fn override_state_is_read_from_the_snapshot() {
    let mut world = World::new(3, 3);
    world.temporary_states[0] = Some(1);
    world.temporary_states[1] = Some(1);
    world.temporary_states[2] = Some(1);
    step(&mut world, false);
    // The overlay made a horizontal line above the centre, which is born.
    assert_eq!(world.board().cells[4].state, 1);
    // In the snapshot the middle overlaid cell is live with two live
    // neighbours, so it survives.
    assert_eq!(world.board().cells[1].state, 0b11);
}

#[test]
fn reset_twice_equals_reset_once() {
    let mut world = contested_world();
    world.temporary_rulesets[2] = Some(Ruleset::Seeds);
    world.temporary_states[3] = Some(1);
    world.reset();
    let once: Vec<Cell> = world.board().cells.clone();
    world.swap();
    let once_back: Vec<Cell> = world.board().cells.clone();
    world.swap();
    world.reset();
    assert_eq!(world.board().cells, once);
    assert!(once.iter().all(|c| *c == Ruleset::Life.off()));
    assert_eq!(once_back, once);
    assert!(world.temporary_rulesets.iter().all(|t| t.is_none()));
    assert!(world.temporary_states.iter().all(|t| t.is_none()));
}

#[test]
fn clear_sets_each_cell_to_its_rulesets_off() {
    let mut world = contested_world();
    world.clear();
    let board = world.board();
    for idx in [3, 5, 6, 7, 8] {
        assert_eq!(board.cells[idx], Ruleset::AntiLife.off());
    }
    for idx in [0, 1, 2, 4] {
        assert_eq!(board.cells[idx], Ruleset::Life.off());
    }
}

#[test]
fn randomize_keeps_each_cells_ruleset() {
    let mut world = contested_world();
    world.randomize();
    let board = world.board();
    for idx in [3, 5, 6, 7, 8] {
        assert_eq!(board.cells[idx].ruleset, Ruleset::AntiLife);
        assert!(board.cells[idx].state < 4);
    }
    for idx in [0, 1, 2, 4] {
        assert_eq!(board.cells[idx].ruleset, Ruleset::Life);
        assert!(board.cells[idx].state < 2);
    }
}

#[test]
fn generate_twice_from_equal_worlds_agrees() {
    let mut a = contested_world();
    let mut b = contested_world();
    a.temporary_states[0] = Some(0);
    b.temporary_states[0] = Some(0);
    for _ in 0..3 {
        step(&mut a, true);
        step(&mut b, true);
    }
    assert_eq!(a.board().cells, b.board().cells);
}

#[test]
fn thin_boards_generate_without_leaving_the_grid() {
    for (w, h) in [(1, 1), (1, 5), (5, 1)] {
        let mut world = World::new(w, h);
        for idx in 0..w * h {
            paint_state(&mut world, idx, 1);
        }
        paint_ruleset(&mut world, 0, Ruleset::LatticeGas);
        step(&mut world, true);
        step(&mut world, true);
        assert_eq!(world.board().cells.len(), w * h);
    }
    // A lone live Life cell has no neighbours and dies.
    let mut world = World::new(1, 1);
    paint_state(&mut world, 0, 1);
    step(&mut world, true);
    assert_eq!(world.board().cells[0].state, 0b10);
}

#[test]
fn commit_overrides_makes_paint_permanent() {
    let mut world = World::new(2, 2);
    world.temporary_rulesets[1] = Some(Ruleset::Seeds);
    world.temporary_states[1] = Some(1);
    world.temporary_states[2] = Some(1);
    world.commit_overrides();
    assert_eq!(world.board().cells[1], Cell { ruleset: Ruleset::Seeds, state: 0 });
    assert_eq!(world.board().cells[2], Cell { ruleset: Ruleset::Life, state: 0 });
    world.swap();
    assert_eq!(world.board().cells[1], Cell { ruleset: Ruleset::Seeds, state: 1 });
    assert_eq!(world.board().cells[2], Cell { ruleset: Ruleset::Life, state: 1 });
    assert_eq!(world.board().cells[0], Cell { ruleset: Ruleset::Life, state: 0 });
    assert_eq!(world.temporary_rulesets[1], Some(Ruleset::Seeds));
}

#[test]
fn board_accessors_expose_both_buffers() {
    let mut world = World::new(2, 1);
    {
        let (front, back, rulesets, states) = world.this_board_and_next_and_temporary();
        front.cells[0].state = 1;
        back.cells[1].state = 1;
        assert_eq!(rulesets.len(), 2);
        assert_eq!(states.len(), 2);
    }
    assert_eq!(world.board().cells[0].state, 1);
    assert_eq!(world.board().cells[1].state, 0);
    world.swap();
    assert_eq!(world.board().cells[1].state, 1);
}

#[test]
fn override_setters_and_clear() {
    let mut world = World::new(3, 3);
    world.set_temporary_ruleset(4, Some(Ruleset::Seeds));
    world.set_temporary_state(0, Some(1));
    world.set_temporary_state(1, Some(1));
    assert_eq!(world.temporary_rulesets[4], Some(Ruleset::Seeds));
    assert_eq!(world.temporary_states[0], Some(1));
    world.generate(false);
    world.swap();
    // Seeds is born with exactly two live neighbours in the snapshot; the
    // owner stays Life.
    assert_eq!(world.board().cells[4], Cell { ruleset: Ruleset::Life, state: 1 });
    world.clear_temporary_overrides();
    assert!(world.temporary_rulesets.iter().all(|t| t.is_none()));
    assert!(world.temporary_states.iter().all(|t| t.is_none()));
    assert_eq!(world.board().cells[4], Cell { ruleset: Ruleset::Life, state: 1 });
}

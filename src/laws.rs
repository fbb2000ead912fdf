//! Properties of the simulation as a whole, proved from the contracts of the
//! rulesets and of the world.
use crate::neighborhood::{is_live, live_at, live_in_row, live_neighbors, population};
use crate::rules::brians_brain::{brain_state, brians_brain_next, BrainState};
use crate::rules::life::life_next;
use crate::rules::seeds::seeds_next;
use crate::rules::{transition, Ruleset};
use crate::world::{
    contested, generated, lemma_index_in_bounds, reset_from, Cell, Grid, World,
};
use vstd::prelude::*;

verus! {

/// Advancing a generation is deterministic: two worlds that hold the same
/// boards and the same overrides advance to the same boards, with the same
/// overrides, whether growth is enabled or not.
pub proof fn lemma_generate_deterministic(
    a0: World,
    a1: World,
    b0: World,
    b1: World,
    growth_enabled: bool,
)
    requires
        a0.wf(),
        b0.wf(),
        a1.wf(),
        b1.wf(),
        a0.front()@ == b0.front()@,
        a0.back()@ == b0.back()@,
        a0.temp_rulesets() == b0.temp_rulesets(),
        a0.temp_states() == b0.temp_states(),
        generated(a0, a1, growth_enabled),
        generated(b0, b1, growth_enabled),
    ensures
        a1.front()@ == b1.front()@,
        a1.back()@ == b1.back()@,
        a1.temp_rulesets() == b1.temp_rulesets(),
        a1.temp_states() == b1.temp_states(),
{
    assert(a1.front()@.cells =~= b1.front()@.cells);
    assert(a1.back()@.cells =~= b1.back()@.cells);
}

/// Grid edges hold no neighbours: a position beyond an edge is never counted
/// as live and never wraps to the other side. On a board one row high only
/// the left and right neighbours count, on a board one column wide only
/// those above and below, and a lone cell has none.
pub proof fn lemma_missing_neighbors_absent(g: Grid, row: int, col: int)
    requires
        g.in_bounds(row, col),
    ensures
        col == 0 ==> live_at(g, row, col - 1) == 0,
        col == g.width - 1 ==> live_at(g, row, col + 1) == 0,
        row == 0 ==> live_in_row(g, row - 1, col, true) == 0,
        row == g.height - 1 ==> live_in_row(g, row + 1, col, true) == 0,
        g.height == 1 ==> live_neighbors(g, row, col) == live_at(g, row, col - 1) + live_at(
            g,
            row,
            col + 1,
        ),
        g.width == 1 ==> live_neighbors(g, row, col) == live_at(g, row - 1, col) + live_at(
            g,
            row + 1,
            col,
        ),
        g.width == 1 && g.height == 1 ==> live_neighbors(g, row, col) == 0,
        g.width == 1 && g.height == 1 ==> forall|r: Ruleset| population(g, row, col, r) == 0,
{
}

/// Under Life, a board without a live cell stays without one: with growth
/// disabled and no overrides, every cell that a generation writes is dead.
pub proof fn lemma_life_dead_board_stays_dead(w0: World, w1: World)
    requires
        w0.wf(),
        generated(w0, w1, false),
        forall|i: int|
            0 <= i < w0.front()@.cells.len() ==> (#[trigger] w0.front()@.cells[i]).ruleset
                == Ruleset::Life && !is_live(w0.front()@.cells[i]),
        forall|i: int|
            0 <= i < w0.front()@.cells.len() ==> #[trigger] w0.temp_rulesets()[i] == None::<
                Ruleset,
            >,
        forall|i: int|
            0 <= i < w0.front()@.cells.len() ==> #[trigger] w0.temp_states()[i] == None::<u8>,
    ensures
        forall|i: int|
            0 <= i < w0.front()@.cells.len() ==> (#[trigger] w1.back()@.cells[i]).state == 0,
{
    let f = w0.front()@;
    let snap = w0.snapshot();
    assert(snap.cells =~= f.cells) by {
        assert forall|i: int| 0 <= i < f.cells.len() implies snap.cells[i] == f.cells[i] by {
            assert(w0.temp_rulesets()[i] == None::<Ruleset>);
            assert(w0.temp_states()[i] == None::<u8>);
        }
    }
    assert forall|i: int| 0 <= i < f.cells.len() implies (#[trigger] w1.back()@.cells[i]).state
        == 0 by {
        assert(w0.temp_rulesets()[i] == None::<Ruleset>);
        let w = f.width;
        let row = i / w;
        let col = i % w;
        crate::world::lemma_flat_position(i, w, f.height);
        assert forall|r: int, c: int| #[trigger] live_at(snap, r, c) == 0 by {
            if snap.in_bounds(r, c) {
                lemma_index_in_bounds(r, c, w, f.height);
                assert(!is_live(f.cells[r * w + c]));
            }
        }
        assert(live_at(snap, row - 1, col - 1) == 0);
        assert(live_at(snap, row - 1, col) == 0);
        assert(live_at(snap, row - 1, col + 1) == 0);
        assert(live_at(snap, row, col - 1) == 0);
        assert(live_at(snap, row, col) == 0);
        assert(live_at(snap, row, col + 1) == 0);
        assert(live_at(snap, row + 1, col - 1) == 0);
        assert(live_at(snap, row + 1, col) == 0);
        assert(live_at(snap, row + 1, col + 1) == 0);
        assert(live_neighbors(snap, row, col) == 0);
        lemma_index_in_bounds(row, col, w, f.height);
        vstd::arithmetic::div_mod::lemma_fundamental_div_mod(i, w);
        assert(row * w + col == i) by (nonlinear_arith)
            requires
                i == w * row + col,
        ;
        assert(!is_live(snap.cell(row, col)));
    }
}

/// Under Life, a live cell without a live neighbour dies.
pub proof fn lemma_life_isolated_cell_dies(g: Grid, row: int, col: int)
    requires
        is_live(g.cell(row, col)),
        live_neighbors(g, row, col) == 0,
    ensures
        !is_live(life_next(g, row, col)),
        !is_live(transition(Ruleset::Life, g, row, col)),
{
    assert(0b10u8 & 1 == 0) by (bit_vector);
}

/// Under Seeds, a live cell is dead in the next generation, whatever its
/// neighbours.
pub proof fn lemma_seeds_live_cell_dies(g: Grid, row: int, col: int)
    requires
        is_live(g.cell(row, col)),
    ensures
        !is_live(seeds_next(g, row, col)),
        !is_live(transition(Ruleset::Seeds, g, row, col)),
{
    assert(0u8 & 1 == 0) by (bit_vector);
}

/// Under Brian's Brain, a firing cell is refractory in the next generation
/// and dead in the one after, whatever its neighbours in either.
pub proof fn lemma_brians_brain_cycle(g1: Grid, g2: Grid, row: int, col: int)
    requires
        brain_state(g1.cell(row, col).state) == BrainState::Firing,
        g2.cell(row, col) == brians_brain_next(g1, row, col),
    ensures
        brain_state(g2.cell(row, col).state) == BrainState::Refractory,
        brain_state(brians_brain_next(g2, row, col).state) == BrainState::Dead,
        transition(Ruleset::BriansBrain, g1, row, col) == g2.cell(row, col),
{
}

/// A cell with a temporary ruleset is advanced by that ruleset alone for one
/// generation: growth does not settle it, only its state is written, and its
/// owner in both boards stays as it was.
pub proof fn lemma_override_precedence(
    w0: World,
    w1: World,
    growth_enabled: bool,
    i: int,
    t: Ruleset,
)
    requires
        w0.wf(),
        generated(w0, w1, growth_enabled),
        0 <= i < w0.front()@.cells.len(),
        w0.temp_rulesets()[i] == Some(t),
    ensures
        !contested(w0.front()@, w0.temp_rulesets(), w0.snapshot(), growth_enabled, i),
        w1.back()@.cells[i] == (Cell {
            ruleset: w0.back()@.cells[i].ruleset,
            state: transition(
                t,
                w0.snapshot(),
                i / w0.front()@.width,
                i % w0.front()@.width,
            ).state,
        }),
        w1.front()@.cells[i] == w0.front()@.cells[i],
{
    assert(w1.back()@.cells[i] == crate::world::next_generation_cell(
        w0.front()@,
        w0.back()@,
        w0.temp_rulesets(),
        w0.snapshot(),
        growth_enabled,
        i,
    ));
    assert(w1.front()@.cells[i] == crate::world::claimed_cell(
        w0.front()@,
        w0.temp_rulesets(),
        w0.snapshot(),
        growth_enabled,
        i,
    ));
}

/// Resetting twice leaves the world as resetting once does.
pub proof fn lemma_reset_idempotent(w0: World, w1: World, w2: World)
    requires
        w0.wf(),
        w1.wf(),
        w2.wf(),
        reset_from(w0, w1),
        reset_from(w1, w2),
    ensures
        w2.front()@ == w1.front()@,
        w2.back()@ == w1.back()@,
        w2.temp_rulesets() == w1.temp_rulesets(),
        w2.temp_states() == w1.temp_states(),
{
    assert(w2.front()@.cells =~= w1.front()@.cells);
    assert(w2.back()@.cells =~= w1.back()@.cells);
    assert(w2.temp_rulesets() =~= w1.temp_rulesets());
    assert(w2.temp_states() =~= w1.temp_states());
}

} // verus!

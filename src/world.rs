//! Cells, boards and the double-buffered world that advances them.
use crate::growth::{competing, growth_winner, Growth};
use crate::rules::{is_on_cell, is_random_cell, off_cell, transition, Ruleset};
use vstd::prelude::*;

verus! {

/// One grid cell: the ruleset that owns it and a state byte whose meaning is
/// private to that ruleset, except that bit 0 marks a cell that counts as live.
#[derive(Copy, Clone, Debug, PartialEq, Eq, Structural)]
pub struct Cell {
    pub ruleset: Ruleset,
    pub state: u8,
}

impl Default for Cell {
    fn default() -> (c: Cell)
        ensures
            c == (Cell { ruleset: Ruleset::Life, state: 0 }),
    {
        Cell { ruleset: Ruleset::Life, state: 0 }
    }
}

/// A row-major grid of cells.
#[derive(Clone, Debug)]
pub struct Board {
    pub cells: Vec<Cell>,
    pub width: usize,
    pub height: usize,
}

/// What a board holds: its cells in row-major order and its dimensions.
pub struct Grid {
    pub cells: Seq<Cell>,
    pub width: int,
    pub height: int,
}

impl Grid {
    pub open spec fn in_bounds(&self, r: int, c: int) -> bool {
        0 <= r < self.height && 0 <= c < self.width
    }

    /// The cell at row `r`, column `c`.
    pub open spec fn cell(&self, r: int, c: int) -> Cell {
        self.cells[r * self.width + c]
    }
}

impl View for Board {
    type V = Grid;

    open spec fn view(&self) -> Grid {
        Grid { cells: self.cells@, width: self.width as int, height: self.height as int }
    }
}

impl Board {
    /// The cell vector holds exactly one cell per grid position.
    pub open spec fn wf(&self) -> bool {
        self.cells@.len() == self.width * self.height
    }
}

/// A grid position maps to an index inside the cell vector.
pub proof fn lemma_index_in_bounds(r: int, c: int, w: int, h: int)
    requires
        0 <= r < h,
        0 <= c < w,
    ensures
        0 <= r * w + c < w * h,
        r * w <= r * w + c,
{
    assert(r * w + c < w * h) by (nonlinear_arith)
        requires
            0 <= r < h,
            0 <= c < w,
    ;
    assert(0 <= r * w) by (nonlinear_arith)
        requires
            0 <= r,
            0 <= w,
    ;
}

pub proof fn lemma_flat_position(i: int, w: int, h: int)
    requires
        0 <= w,
        0 <= h,
        0 <= i < w * h,
    ensures
        w > 0,
        0 <= i / w < h,
        0 <= i % w < w,
{
    if w == 0 {
        assert(w * h == 0);
    }
    let q = i / w;
    let r = i % w;
    vstd::arithmetic::div_mod::lemma_fundamental_div_mod(i, w);
    assert(0 <= q < h) by (nonlinear_arith)
        requires
            i == w * q + r,
            0 <= r < w,
            0 <= i < w * h,
            w > 0,
    ;
}

/// The cell that the snapshot of a tick holds: the board's cell with any
/// temporary ruleset and state laid over it.
pub open spec fn overlay(c: Cell, r: Option<Ruleset>, s: Option<u8>) -> Cell {
    Cell {
        ruleset: match r {
            Some(x) => x,
            None => c.ruleset,
        },
        state: match s {
            Some(x) => x,
            None => c.state,
        },
    }
}

/// The read-only snapshot that one generation reads from.
pub open spec fn snapshot_of(g: Grid, rs: Seq<Option<Ruleset>>, ss: Seq<Option<u8>>) -> Grid {
    Grid {
        cells: Seq::new(g.cells.len(), |i: int| overlay(g.cells[i], rs[i], ss[i])),
        width: g.width,
        height: g.height,
    }
}

/// The ruleset that governs a contested cell: the growth winner, or the
/// cell's own ruleset when no competing ruleset wants it.
pub open spec fn chosen_ruleset(snap: Grid, own: Ruleset, row: int, col: int) -> Ruleset {
    match growth_winner(snap, row, col) {
        Some(w) => w,
        None => own,
    }
}

/// Whether the cell at flat index `i` is settled by growth this generation.
pub open spec fn contested(
    front: Grid,
    tr: Seq<Option<Ruleset>>,
    snap: Grid,
    growth_enabled: bool,
    i: int,
) -> bool {
    tr[i].is_none() && growth_enabled && competing(snap, i / front.width, i % front.width)
}

/// The cell that one generation writes into the back board at flat index `i`.
pub open spec fn next_generation_cell(
    front: Grid,
    back: Grid,
    tr: Seq<Option<Ruleset>>,
    snap: Grid,
    growth_enabled: bool,
    i: int,
) -> Cell {
    let row = i / front.width;
    let col = i % front.width;
    let own = front.cells[i].ruleset;
    match tr[i] {
        Some(t) => Cell { state: transition(t, snap, row, col).state, ..back.cells[i] },
        None => if contested(front, tr, snap, growth_enabled, i) {
            transition(chosen_ruleset(snap, own, row, col), snap, row, col)
        } else {
            Cell { state: transition(own, snap, row, col).state, ..back.cells[i] }
        },
    }
}

/// The cell that one generation leaves in the front board at flat index `i`:
/// a contested cell passes to the ruleset that governs it.
pub open spec fn claimed_cell(
    front: Grid,
    tr: Seq<Option<Ruleset>>,
    snap: Grid,
    growth_enabled: bool,
    i: int,
) -> Cell {
    if contested(front, tr, snap, growth_enabled, i) {
        Cell {
            ruleset: chosen_ruleset(
                snap,
                front.cells[i].ruleset,
                i / front.width,
                i % front.width,
            ),
            ..front.cells[i]
        }
    } else {
        front.cells[i]
    }
}

/// Advances every cell once, reading only `snap`: the next cells go to
/// `back`, and contested cells change owner in `front` at once.
fn step_cells(
    front: &mut Board,
    back: &mut Board,
    snap: &Board,
    temporary_rulesets: &Vec<Option<Ruleset>>,
    growth: &mut Growth,
    growth_enabled: bool,
)
    requires
        old(front).wf(),
        old(back)@.cells.len() == old(front)@.cells.len(),
        snap.wf(),
        snap.width == old(front).width,
        snap.height == old(front).height,
        temporary_rulesets@.len() == old(front)@.cells.len(),
    ensures
        final(front).width == old(front).width,
        final(front).height == old(front).height,
        final(back).width == old(back).width,
        final(back).height == old(back).height,
        final(front)@.cells.len() == old(front)@.cells.len(),
        final(back)@.cells.len() == old(back)@.cells.len(),
        forall|i: int|
            0 <= i < old(front)@.cells.len() ==> #[trigger] final(front)@.cells[i]
                == claimed_cell(old(front)@, temporary_rulesets@, snap@, growth_enabled, i),
        forall|i: int|
            0 <= i < old(front)@.cells.len() ==> #[trigger] final(back)@.cells[i]
                == next_generation_cell(
                old(front)@,
                old(back)@,
                temporary_rulesets@,
                snap@,
                growth_enabled,
                i,
            ),
{
    let ghost f0 = front@;
    let ghost b0 = back@;
    let ghost tr = temporary_rulesets@;
    let n = front.cells.len();
    let w = front.width;
    let mut idx: usize = 0;
    while idx < n
        invariant
            n == f0.cells.len(),
            w == f0.width,
            f0.cells.len() == f0.width * f0.height,
            snap.wf(),
            snap.width == f0.width,
            snap.height == f0.height,
            tr == temporary_rulesets@,
            tr.len() == n,
            b0.cells.len() == n,
            front.width == f0.width,
            front.height == f0.height,
            back.width == b0.width,
            back.height == b0.height,
            front@.cells.len() == n,
            back@.cells.len() == n,
            idx <= n,
            forall|i: int|
                0 <= i < idx ==> #[trigger] front@.cells[i] == claimed_cell(
                    f0,
                    tr,
                    snap@,
                    growth_enabled,
                    i,
                ),
            forall|i: int|
                0 <= i < idx ==> #[trigger] back@.cells[i] == next_generation_cell(
                    f0,
                    b0,
                    tr,
                    snap@,
                    growth_enabled,
                    i,
                ),
            forall|i: int| idx <= i < n ==> #[trigger] front@.cells[i] == f0.cells[i],
            forall|i: int| idx <= i < n ==> #[trigger] back@.cells[i] == b0.cells[i],
        decreases n - idx,
    {
        proof {
            lemma_flat_position(idx as int, w as int, f0.height);
        }
        let row = idx / w;
        let col = idx % w;
        let cell = front.cells[idx];
        let old_next = back.cells[idx];
        let ghost own = cell.ruleset;
        match temporary_rulesets[idx] {
            Some(ruleset) => {
                // A temporary ruleset is transient paint: it bypasses growth
                // and leaves ownership as it was.
                let next_cell = ruleset.next_cell_state(snap, row, col);
                back.cells.set(idx, Cell { state: next_cell.state, ..old_next });
            },
            None => {
                let mut contested_here = false;
                if growth_enabled {
                    growth.find_neighboring_rulesets(snap, row, col);
                    contested_here = growth.has_competing_rulesets();
                }
                if contested_here {
                    let next_cell = match growth.next_live_state() {
                        Some(c) => c,
                        None => cell.ruleset.next_cell_state(snap, row, col),
                    };
                    if next_cell.ruleset != cell.ruleset {
                        front.cells.set(idx, Cell { ruleset: next_cell.ruleset, ..cell });
                    }
                    back.cells.set(idx, next_cell);
                } else {
                    let next_cell = cell.ruleset.next_cell_state(snap, row, col);
                    back.cells.set(idx, Cell { state: next_cell.state, ..old_next });
                }
            },
        }
        idx = idx + 1;
    }
}

/// `after` is `before` advanced one generation, with growth enabled or not:
/// the shape and the overrides stay, every back cell is the one that the
/// generation writes, and every front cell the one that it leaves.
pub open spec fn generated(before: World, after: World, growth_enabled: bool) -> bool {
    let n = before.front()@.cells.len();
    &&& after.front().width == before.front().width
    &&& after.front().height == before.front().height
    &&& after.temp_rulesets() == before.temp_rulesets()
    &&& after.temp_states() == before.temp_states()
    &&& forall|i: int|
        0 <= i < n ==> #[trigger] after.front()@.cells[i] == claimed_cell(
            before.front()@,
            before.temp_rulesets(),
            before.snapshot(),
            growth_enabled,
            i,
        )
    &&& forall|i: int|
        0 <= i < n ==> #[trigger] after.back()@.cells[i] == next_generation_cell(
            before.front()@,
            before.back()@,
            before.temp_rulesets(),
            before.snapshot(),
            growth_enabled,
            i,
        )
}

/// `after` is `before` reset: same shape, every cell of both boards the
/// default ruleset's dead cell, and no overrides.
pub open spec fn reset_from(before: World, after: World) -> bool {
    let n = before.front()@.cells.len();
    &&& after.front().width == before.front().width
    &&& after.front().height == before.front().height
    &&& after.front()@.cells == uniform(off_cell(Ruleset::Life), n as int)
    &&& after.back()@.cells == after.front()@.cells
    &&& after.temp_rulesets() == Seq::new(n, |i: int| None::<Ruleset>)
    &&& after.temp_states() == Seq::new(n, |i: int| None::<u8>)
}

#[derive(Copy, Clone, Debug, PartialEq, Eq, Structural)]
enum CurrentBoard {
    A,
    B,
}

/// Two boards of the same shape, one shown and one being written, with the
/// temporary overrides that a collaborator lays over the shown board for one
/// generation. Both override vectors hold one entry per cell.
pub struct World {
    state_a: Board,
    state_b: Board,
    growth: Growth,
    current_board: CurrentBoard,
    pub temporary_rulesets: Vec<Option<Ruleset>>,
    pub temporary_states: Vec<Option<u8>>,
}

/// A board of `n` copies of `c`.
pub open spec fn uniform(c: Cell, n: int) -> Seq<Cell> {
    Seq::new(n as nat, |i: int| c)
}

fn filled_cells(c: Cell, n: usize) -> (v: Vec<Cell>)
    ensures
        v@ == uniform(c, n as int),
{
    let mut v: Vec<Cell> = Vec::new();
    while v.len() < n
        invariant
            v@.len() <= n,
            forall|i: int| 0 <= i < v@.len() ==> #[trigger] v@[i] == c,
        decreases n - v@.len(),
    {
        v.push(c);
    }
    assert(v@ =~= uniform(c, n as int));
    v
}

/// Overwrites every cell of `v` with `c`.
fn fill_cells(v: &mut Vec<Cell>, c: Cell)
    ensures
        final(v)@ == uniform(c, old(v)@.len() as int),
{
    let mut i: usize = 0;
    while i < v.len()
        invariant
            i <= v@.len(),
            v@.len() == old(v)@.len(),
            forall|k: int| 0 <= k < i ==> #[trigger] v@[k] == c,
        decreases v@.len() - i,
    {
        v.set(i, c);
        i = i + 1;
    }
    assert(v@ =~= uniform(c, old(v)@.len() as int));
}

/// Removes every override of `v`.
fn clear_overrides<T: Copy>(v: &mut Vec<Option<T>>)
    ensures
        final(v)@ == Seq::new(old(v)@.len(), |i: int| None::<T>),
{
    let mut i: usize = 0;
    while i < v.len()
        invariant
            i <= v@.len(),
            v@.len() == old(v)@.len(),
            forall|k: int| 0 <= k < i ==> #[trigger] v@[k] == None::<T>,
        decreases v@.len() - i,
    {
        v.set(i, None);
        i = i + 1;
    }
    assert(v@ =~= Seq::new(old(v)@.len(), |i: int| None::<T>));
}

/// Replaces every cell with a random starting cell of its own ruleset.
fn randomize_cells(board: &mut Board)
    ensures
        final(board).width == old(board).width,
        final(board).height == old(board).height,
        final(board)@.cells.len() == old(board)@.cells.len(),
        forall|i: int|
            0 <= i < old(board)@.cells.len() ==> is_random_cell(
                old(board)@.cells[i].ruleset,
                #[trigger] final(board)@.cells[i],
            ),
{
    let mut i: usize = 0;
    while i < board.cells.len()
        invariant
            i <= board@.cells.len(),
            board@.cells.len() == old(board)@.cells.len(),
            board.width == old(board).width,
            board.height == old(board).height,
            forall|k: int|
                0 <= k < i ==> is_random_cell(
                    old(board)@.cells[k].ruleset,
                    #[trigger] board@.cells[k],
                ),
            forall|k: int|
                i <= k < board@.cells.len() ==> #[trigger] board@.cells[k] == old(board)@.cells[k],
        decreases board@.cells.len() - i,
    {
        let c = board.cells[i];
        board.cells.set(i, c.ruleset.random());
        i = i + 1;
    }
}

/// Replaces every cell with the canonical dead cell of its own ruleset.
fn clear_cells(board: &mut Board)
    ensures
        final(board).width == old(board).width,
        final(board).height == old(board).height,
        final(board)@.cells.len() == old(board)@.cells.len(),
        forall|i: int|
            0 <= i < old(board)@.cells.len() ==> #[trigger] final(board)@.cells[i] == off_cell(
                old(board)@.cells[i].ruleset,
            ),
{
    let mut i: usize = 0;
    while i < board.cells.len()
        invariant
            i <= board@.cells.len(),
            board@.cells.len() == old(board)@.cells.len(),
            board.width == old(board).width,
            board.height == old(board).height,
            forall|k: int|
                0 <= k < i ==> #[trigger] board@.cells[k] == off_cell(old(board)@.cells[k].ruleset),
            forall|k: int|
                i <= k < board@.cells.len() ==> #[trigger] board@.cells[k] == old(board)@.cells[k],
        decreases board@.cells.len() - i,
    {
        let c = board.cells[i];
        board.cells.set(i, c.ruleset.off());
        i = i + 1;
    }
}

/// Paints the cell at `idx` live with the ruleset of the cell at `brush_idx`,
/// if both cells belong to that ruleset.
fn paint_live_cell(board: &mut Board, brush_idx: usize, idx: usize)
    requires
        brush_idx < old(board)@.cells.len(),
        idx < old(board)@.cells.len(),
    ensures
        final(board).width == old(board).width,
        final(board).height == old(board).height,
        final(board)@.cells.len() == old(board)@.cells.len(),
        old(board)@.cells[idx as int].ruleset == old(board)@.cells[brush_idx as int].ruleset
            ==> is_on_cell(
            old(board)@.cells[brush_idx as int].ruleset,
            final(board)@.cells[idx as int],
        ),
        old(board)@.cells[idx as int].ruleset != old(board)@.cells[brush_idx as int].ruleset
            ==> final(board)@.cells[idx as int] == old(board)@.cells[idx as int],
        forall|i: int|
            0 <= i < old(board)@.cells.len() && i != idx ==> #[trigger] final(board)@.cells[i]
                == old(board)@.cells[i],
{
    let brush_ruleset = board.cells[brush_idx].ruleset;
    let on = brush_ruleset.on();
    if board.cells[idx].ruleset == brush_ruleset {
        board.cells.set(idx, on);
    }
}

/// Gives the cell at `idx` to `ruleset`, keeping its state.
fn paint_cell_ruleset(board: &mut Board, idx: usize, ruleset: Ruleset)
    requires
        idx < old(board)@.cells.len(),
    ensures
        final(board).width == old(board).width,
        final(board).height == old(board).height,
        final(board)@.cells == old(board)@.cells.update(
            idx as int,
            Cell { ruleset, ..old(board)@.cells[idx as int] },
        ),
{
    let c = board.cells[idx];
    board.cells.set(idx, Cell { ruleset, ..c });
}

/// The cell at index `i` of the front board once the overrides are made
/// permanent: a temporary ruleset becomes its owner.
pub open spec fn committed_front(front: Grid, tr: Seq<Option<Ruleset>>, i: int) -> Cell {
    match tr[i] {
        Some(r) => Cell { ruleset: r, ..front.cells[i] },
        None => front.cells[i],
    }
}

/// The cell at index `i` of the back board once the overrides are made
/// permanent: a temporary ruleset becomes its owner, and a temporary state
/// its state.
pub open spec fn committed_back(
    back: Grid,
    tr: Seq<Option<Ruleset>>,
    ts: Seq<Option<u8>>,
    i: int,
) -> Cell {
    Cell {
        ruleset: match tr[i] {
            Some(r) => r,
            None => back.cells[i].ruleset,
        },
        state: match ts[i] {
            Some(s) => s,
            None => back.cells[i].state,
        },
    }
}

fn commit_cells(
    front: &mut Board,
    back: &mut Board,
    rs: &Vec<Option<Ruleset>>,
    ss: &Vec<Option<u8>>,
)
    requires
        old(back)@.cells.len() == old(front)@.cells.len(),
        rs@.len() == old(front)@.cells.len(),
        ss@.len() == old(front)@.cells.len(),
    ensures
        final(front).width == old(front).width,
        final(front).height == old(front).height,
        final(back).width == old(back).width,
        final(back).height == old(back).height,
        final(front)@.cells.len() == old(front)@.cells.len(),
        final(back)@.cells.len() == old(back)@.cells.len(),
        forall|i: int|
            0 <= i < old(front)@.cells.len() ==> #[trigger] final(front)@.cells[i]
                == committed_front(old(front)@, rs@, i),
        forall|i: int|
            0 <= i < old(front)@.cells.len() ==> #[trigger] final(back)@.cells[i]
                == committed_back(old(back)@, rs@, ss@, i),
{
    let ghost f0 = front@;
    let ghost b0 = back@;
    let n = front.cells.len();
    let mut i: usize = 0;
    while i < n
        invariant
            n == f0.cells.len(),
            b0.cells.len() == n,
            rs@.len() == n,
            ss@.len() == n,
            i <= n,
            front.width == f0.width,
            front.height == f0.height,
            back.width == b0.width,
            back.height == b0.height,
            front@.cells.len() == n,
            back@.cells.len() == n,
            forall|k: int| 0 <= k < i ==> #[trigger] front@.cells[k] == committed_front(f0, rs@, k),
            forall|k: int|
                0 <= k < i ==> #[trigger] back@.cells[k] == committed_back(b0, rs@, ss@, k),
            forall|k: int| i <= k < n ==> #[trigger] front@.cells[k] == f0.cells[k],
            forall|k: int| i <= k < n ==> #[trigger] back@.cells[k] == b0.cells[k],
        decreases n - i,
    {
        let mut cell = front.cells[i];
        let mut next_cell = back.cells[i];
        if let Some(ruleset) = rs[i] {
            cell.ruleset = ruleset;
            next_cell.ruleset = ruleset;
        }
        if let Some(state) = ss[i] {
            next_cell.state = state;
        }
        front.cells.set(i, cell);
        back.cells.set(i, next_cell);
        i = i + 1;
    }
}

/// The snapshot that one generation reads: `board` with the overrides laid
/// over it.
fn scratch_board(board: &Board, rs: &Vec<Option<Ruleset>>, ss: &Vec<Option<u8>>) -> (snap: Board)
    requires
        board.wf(),
        rs@.len() == board@.cells.len(),
        ss@.len() == board@.cells.len(),
    ensures
        snap.wf(),
        snap.width == board.width,
        snap.height == board.height,
        snap@ == snapshot_of(board@, rs@, ss@),
{
    let mut cells: Vec<Cell> = Vec::new();
    let mut i: usize = 0;
    while i < board.cells.len()
        invariant
            i <= board@.cells.len(),
            rs@.len() == board@.cells.len(),
            ss@.len() == board@.cells.len(),
            cells@.len() == i,
            forall|k: int|
                0 <= k < i ==> #[trigger] cells@[k] == overlay(board@.cells[k], rs@[k], ss@[k]),
        decreases board@.cells.len() - i,
    {
        let c = board.cells[i];
        let ruleset = match rs[i] {
            Some(r) => r,
            None => c.ruleset,
        };
        let state = match ss[i] {
            Some(s) => s,
            None => c.state,
        };
        cells.push(Cell { ruleset, state });
        i = i + 1;
    }
    let snap = Board { cells, width: board.width, height: board.height };
    assert(snap@.cells =~= snapshot_of(board@, rs@, ss@).cells);
    snap
}

fn no_overrides<T: Copy>(n: usize) -> (v: Vec<Option<T>>)
    ensures
        v@ == Seq::new(n as nat, |i: int| None::<T>),
{
    let mut v: Vec<Option<T>> = Vec::new();
    while v.len() < n
        invariant
            v@.len() <= n,
            forall|i: int| 0 <= i < v@.len() ==> #[trigger] v@[i] == None::<T>,
        decreases n - v@.len(),
    {
        v.push(None);
    }
    assert(v@ =~= Seq::new(n as nat, |i: int| None::<T>));
    v
}

impl World {
    /// The board that is shown, and that the next generation reads.
    pub closed spec fn front(&self) -> Board {
        match self.current_board {
            CurrentBoard::A => self.state_a,
            CurrentBoard::B => self.state_b,
        }
    }

    /// The board that the next generation writes.
    pub closed spec fn back(&self) -> Board {
        match self.current_board {
            CurrentBoard::A => self.state_b,
            CurrentBoard::B => self.state_a,
        }
    }

    /// The temporary ruleset laid over each cell for the next generation.
    pub closed spec fn temp_rulesets(&self) -> Seq<Option<Ruleset>> {
        self.temporary_rulesets@
    }

    /// The temporary state laid over each cell for the next generation.
    pub closed spec fn temp_states(&self) -> Seq<Option<u8>> {
        self.temporary_states@
    }

    /// The snapshot that the next generation reads.
    pub open spec fn snapshot(&self) -> Grid {
        snapshot_of(self.front()@, self.temp_rulesets(), self.temp_states())
    }

    /// Both boards share one shape, and each override vector holds one entry
    /// per cell.
    pub open spec fn wf(&self) -> bool {
        let f = self.front();
        let b = self.back();
        &&& f.wf()
        &&& b.wf()
        &&& b.width == f.width
        &&& b.height == f.height
        &&& self.temp_rulesets().len() == f@.cells.len()
        &&& self.temp_states().len() == f@.cells.len()
    }

    /// A world of `width` by `height` default cells with no overrides.
    pub fn new(width: usize, height: usize) -> (w: World)
        requires
            width * height <= usize::MAX,
        ensures
            w.wf(),
            w.front().width == width,
            w.front().height == height,
            w.front()@.cells == uniform(Cell { ruleset: Ruleset::Life, state: 0 }, width * height),
            w.back()@.cells == w.front()@.cells,
            w.temp_rulesets() == Seq::new((width * height) as nat, |i: int| None::<Ruleset>),
            w.temp_states() == Seq::new((width * height) as nat, |i: int| None::<u8>),
    {
        let n = width * height;
        let state_a = Board { cells: filled_cells(Cell::default(), n), width, height };
        let state_b = Board { cells: filled_cells(Cell::default(), n), width, height };
        World {
            state_a,
            state_b,
            growth: Growth::new(),
            current_board: CurrentBoard::A,
            temporary_rulesets: no_overrides(n),
            temporary_states: no_overrides(n),
        }
    }

    /// The board that is shown.
    pub fn board(&self) -> (b: &Board)
        ensures
            *b == self.front(),
    {
        match self.current_board {
            CurrentBoard::A => &self.state_a,
            CurrentBoard::B => &self.state_b,
        }
    }

    /// The board that is shown, for painting.
    pub fn board_mut(&mut self) -> (b: &mut Board)
        ensures
            *b == old(self).front(),
            final(self).front() == *final(b),
            final(self).back() == old(self).back(),
            final(self).temp_rulesets() == old(self).temp_rulesets(),
            final(self).temp_states() == old(self).temp_states(),
    {
        match self.current_board {
            CurrentBoard::A => &mut self.state_a,
            CurrentBoard::B => &mut self.state_b,
        }
    }

    /// The shown board and the board being written, for painting both.
    pub fn this_board_and_next(&mut self) -> (r: (&mut Board, &mut Board))
        ensures
            *r.0 == old(self).front(),
            *r.1 == old(self).back(),
            final(self).front() == *final(r.0),
            final(self).back() == *final(r.1),
            final(self).temp_rulesets() == old(self).temp_rulesets(),
            final(self).temp_states() == old(self).temp_states(),
    {
        match self.current_board {
            CurrentBoard::A => (&mut self.state_a, &mut self.state_b),
            CurrentBoard::B => (&mut self.state_b, &mut self.state_a),
        }
    }

    /// Both boards, for painting, with the overrides to paint from.
    pub fn this_board_and_next_and_temporary(&mut self) -> (r: (
        &mut Board,
        &mut Board,
        &[Option<Ruleset>],
        &[Option<u8>],
    ))
        ensures
            *r.0 == old(self).front(),
            *r.1 == old(self).back(),
            r.2@ == old(self).temp_rulesets(),
            r.3@ == old(self).temp_states(),
            final(self).front() == *final(r.0),
            final(self).back() == *final(r.1),
            final(self).temp_rulesets() == old(self).temp_rulesets(),
            final(self).temp_states() == old(self).temp_states(),
    {
        match self.current_board {
            CurrentBoard::A => (
                &mut self.state_a,
                &mut self.state_b,
                self.temporary_rulesets.as_slice(),
                self.temporary_states.as_slice(),
            ),
            CurrentBoard::B => (
                &mut self.state_b,
                &mut self.state_a,
                self.temporary_rulesets.as_slice(),
                self.temporary_states.as_slice(),
            ),
        }
    }

    /// Replaces every shown cell with a random starting cell of its own
    /// ruleset.
    pub fn randomize(&mut self)
        requires
            old(self).wf(),
        ensures
            final(self).wf(),
            final(self).front().width == old(self).front().width,
            final(self).front().height == old(self).front().height,
            final(self).back() == old(self).back(),
            final(self).temp_rulesets() == old(self).temp_rulesets(),
            final(self).temp_states() == old(self).temp_states(),
            forall|i: int|
                0 <= i < old(self).front()@.cells.len() ==> is_random_cell(
                    old(self).front()@.cells[i].ruleset,
                    #[trigger] final(self).front()@.cells[i],
                ),
    {
        match self.current_board {
            CurrentBoard::A => randomize_cells(&mut self.state_a),
            CurrentBoard::B => randomize_cells(&mut self.state_b),
        }
    }

    /// Replaces every shown cell with the canonical dead cell of its own
    /// ruleset.
    pub fn clear(&mut self)
        requires
            old(self).wf(),
        ensures
            final(self).wf(),
            final(self).front().width == old(self).front().width,
            final(self).front().height == old(self).front().height,
            final(self).back() == old(self).back(),
            final(self).temp_rulesets() == old(self).temp_rulesets(),
            final(self).temp_states() == old(self).temp_states(),
            forall|i: int|
                0 <= i < old(self).front()@.cells.len() ==> #[trigger] final(self).front()@.cells[i]
                    == off_cell(old(self).front()@.cells[i].ruleset),
    {
        match self.current_board {
            CurrentBoard::A => clear_cells(&mut self.state_a),
            CurrentBoard::B => clear_cells(&mut self.state_b),
        }
    }

    /// Sets every cell of both boards to the default ruleset's dead cell and
    /// removes every override.
    pub fn reset(&mut self)
        requires
            old(self).wf(),
        ensures
            final(self).wf(),
            reset_from(*old(self), *final(self)),
    {
        let blank_cell = Ruleset::default().off();
        fill_cells(&mut self.state_a.cells, blank_cell);
        fill_cells(&mut self.state_b.cells, blank_cell);
        clear_overrides(&mut self.temporary_states);
        clear_overrides(&mut self.temporary_rulesets);
    }

    /// Advances every cell one generation into the back board, reading only
    /// the snapshot of the shown board with the overrides laid over it. A cell
    /// with a temporary ruleset is advanced by that ruleset and keeps its
    /// owner. Otherwise, with growth enabled, a cell whose live neighbours
    /// belong to two or more rulesets is settled by growth and passes to the
    /// ruleset that governs it, in both boards. Every other cell is advanced
    /// by its own ruleset. Only the state is written where the owner stays.
    pub fn generate(&mut self, growth_enabled: bool)
        requires
            old(self).wf(),
        ensures
            final(self).wf(),
            generated(*old(self), *final(self), growth_enabled),
    {
        let snap = match self.current_board {
            CurrentBoard::A => scratch_board(
                &self.state_a,
                &self.temporary_rulesets,
                &self.temporary_states,
            ),
            CurrentBoard::B => scratch_board(
                &self.state_b,
                &self.temporary_rulesets,
                &self.temporary_states,
            ),
        };
        match self.current_board {
            CurrentBoard::A => step_cells(
                &mut self.state_a,
                &mut self.state_b,
                &snap,
                &self.temporary_rulesets,
                &mut self.growth,
                growth_enabled,
            ),
            CurrentBoard::B => step_cells(
                &mut self.state_b,
                &mut self.state_a,
                &snap,
                &self.temporary_rulesets,
                &mut self.growth,
                growth_enabled,
            ),
        }
    }

    /// Paints the shown cell at `idx` live with the ruleset of the shown cell
    /// under the brush, at `brush_idx`, if both belong to that ruleset.
    pub fn paint_liveness(&mut self, brush_idx: usize, idx: usize)
        requires
            old(self).wf(),
            brush_idx < old(self).front()@.cells.len(),
            idx < old(self).front()@.cells.len(),
        ensures
            final(self).wf(),
            final(self).front().width == old(self).front().width,
            final(self).front().height == old(self).front().height,
            final(self).back() == old(self).back(),
            final(self).temp_rulesets() == old(self).temp_rulesets(),
            final(self).temp_states() == old(self).temp_states(),
            ({
                let before = old(self).front()@.cells;
                let after = final(self).front()@.cells;
                &&& before[idx as int].ruleset == before[brush_idx as int].ruleset ==> is_on_cell(
                    before[brush_idx as int].ruleset,
                    after[idx as int],
                )
                &&& before[idx as int].ruleset != before[brush_idx as int].ruleset
                    ==> after[idx as int] == before[idx as int]
                &&& forall|i: int|
                    0 <= i < before.len() && i != idx ==> #[trigger] after[i] == before[i]
            }),
    {
        match self.current_board {
            CurrentBoard::A => paint_live_cell(&mut self.state_a, brush_idx, idx),
            CurrentBoard::B => paint_live_cell(&mut self.state_b, brush_idx, idx),
        }
    }

    /// Gives the cell at `idx` to `ruleset` in both boards, keeping its
    /// states.
    pub fn paint_ruleset(&mut self, idx: usize, ruleset: Ruleset)
        requires
            old(self).wf(),
            idx < old(self).front()@.cells.len(),
        ensures
            final(self).wf(),
            final(self).front().width == old(self).front().width,
            final(self).front().height == old(self).front().height,
            final(self).front()@.cells == old(self).front()@.cells.update(
                idx as int,
                Cell { ruleset, ..old(self).front()@.cells[idx as int] },
            ),
            final(self).back()@.cells == old(self).back()@.cells.update(
                idx as int,
                Cell { ruleset, ..old(self).back()@.cells[idx as int] },
            ),
            final(self).temp_rulesets() == old(self).temp_rulesets(),
            final(self).temp_states() == old(self).temp_states(),
    {
        paint_cell_ruleset(&mut self.state_a, idx, ruleset);
        paint_cell_ruleset(&mut self.state_b, idx, ruleset);
    }

    /// Makes the overrides permanent: each temporary ruleset becomes the owner
    /// of its cell in both boards, and each temporary state the state of its
    /// cell in the back board. The overrides themselves stay.
    pub fn commit_overrides(&mut self)
        requires
            old(self).wf(),
        ensures
            final(self).wf(),
            final(self).front().width == old(self).front().width,
            final(self).front().height == old(self).front().height,
            final(self).temp_rulesets() == old(self).temp_rulesets(),
            final(self).temp_states() == old(self).temp_states(),
            forall|i: int|
                0 <= i < old(self).front()@.cells.len() ==> #[trigger] final(self).front()@.cells[i]
                    == committed_front(old(self).front()@, old(self).temp_rulesets(), i),
            forall|i: int|
                0 <= i < old(self).front()@.cells.len() ==> #[trigger] final(self).back()@.cells[i]
                    == committed_back(
                    old(self).back()@,
                    old(self).temp_rulesets(),
                    old(self).temp_states(),
                    i,
                ),
    {
        match self.current_board {
            CurrentBoard::A => commit_cells(
                &mut self.state_a,
                &mut self.state_b,
                &self.temporary_rulesets,
                &self.temporary_states,
            ),
            CurrentBoard::B => commit_cells(
                &mut self.state_b,
                &mut self.state_a,
                &self.temporary_rulesets,
                &self.temporary_states,
            ),
        }
    }

    /// Lays a temporary ruleset (or none) over the cell at `idx` for the
    /// next generation.
    pub fn set_temporary_ruleset(&mut self, idx: usize, r: Option<Ruleset>)
        requires
            old(self).wf(),
            idx < old(self).front()@.cells.len(),
        ensures
            final(self).wf(),
            final(self).front() == old(self).front(),
            final(self).back() == old(self).back(),
            final(self).temp_rulesets() == old(self).temp_rulesets().update(idx as int, r),
            final(self).temp_states() == old(self).temp_states(),
    {
        self.temporary_rulesets.set(idx, r);
    }

    /// Lays a temporary state (or none) over the cell at `idx` for the next
    /// generation.
    pub fn set_temporary_state(&mut self, idx: usize, s: Option<u8>)
        requires
            old(self).wf(),
            idx < old(self).front()@.cells.len(),
        ensures
            final(self).wf(),
            final(self).front() == old(self).front(),
            final(self).back() == old(self).back(),
            final(self).temp_rulesets() == old(self).temp_rulesets(),
            final(self).temp_states() == old(self).temp_states().update(idx as int, s),
    {
        self.temporary_states.set(idx, s);
    }

    /// Removes every temporary ruleset and state, leaving both boards as
    /// they are.
    pub fn clear_temporary_overrides(&mut self)
        requires
            old(self).wf(),
        ensures
            final(self).wf(),
            final(self).front() == old(self).front(),
            final(self).back() == old(self).back(),
            final(self).temp_rulesets() == Seq::new(
                old(self).front()@.cells.len(),
                |i: int| None::<Ruleset>,
            ),
            final(self).temp_states() == Seq::new(
                old(self).front()@.cells.len(),
                |i: int| None::<u8>,
            ),
    {
        clear_overrides(&mut self.temporary_rulesets);
        clear_overrides(&mut self.temporary_states);
    }

    /// Makes the board just written the one shown.
    pub fn swap(&mut self)
        ensures
            final(self).front() == old(self).back(),
            final(self).back() == old(self).front(),
            final(self).temp_rulesets() == old(self).temp_rulesets(),
            final(self).temp_states() == old(self).temp_states(),
    {
        self.current_board = match self.current_board {
            CurrentBoard::A => CurrentBoard::B,
            CurrentBoard::B => CurrentBoard::A,
        };
    }
}

} // verus!

//! Growth: how rulesets compete for a cell whose live neighbours belong to
//! more than one ruleset. The contest is decided over the eight neighbours of
//! the cell; `adjacent_live_rulesets` reports the whole 3x3 block, the cell
//! itself included, for display.
use crate::neighborhood::{cell_at, cell_is_live, is_live, owned_live_at, population};
use crate::rules::{lemma_ruleset_at_index, ruleset_at, ruleset_index, transition, Ruleset, RULESET_COUNT};
use crate::world::{Board, Cell, Grid};
use vstd::prelude::*;

verus! {

/// How many times `r` occurs in `s`.
pub open spec fn count_in(s: Seq<Ruleset>, r: Ruleset) -> nat
    decreases s.len(),
{
    if s.len() == 0 {
        0
    } else {
        count_in(s.drop_last(), r) + if s.last() == r {
            1nat
        } else {
            0nat
        }
    }
}

proof fn lemma_count_push(s: Seq<Ruleset>, x: Ruleset, r: Ruleset)
    ensures
        count_in(s.push(x), r) == count_in(s, r) + if x == r {
            1nat
        } else {
            0nat
        },
{
    assert(s.push(x).drop_last() =~= s);
}

proof fn lemma_count_bound(s: Seq<Ruleset>, r: Ruleset)
    ensures
        count_in(s, r) <= s.len(),
    decreases s.len(),
{
    if s.len() > 0 {
        lemma_count_bound(s.drop_last(), r);
    }
}

/// Live cells owned by `rs` in the 3x3 block centred on `(row, col)`, the
/// centre included.
pub open spec fn block_population(g: Grid, row: int, col: int, rs: Ruleset) -> int {
    population(g, row, col, rs) + owned_live_at(g, row, col, rs)
}

/// Appends the ruleset of `(row, col)` when that cell is live.
fn push_ruleset_if_live(output: &mut Vec<Ruleset>, board: &Board, row: usize, col: usize)
    requires
        board.wf(),
        row < board.height,
        col < board.width,
    ensures
        forall|r: Ruleset|
            #[trigger] count_in(final(output)@, r) == count_in(old(output)@, r) + owned_live_at(
                board@,
                row as int,
                col as int,
                r,
            ),
        final(output)@.len() <= old(output)@.len() + 1,
{
    let cell = cell_at(board, row, col);
    if cell_is_live(&cell) {
        output.push(cell.ruleset);
        proof {
            assert forall|r: Ruleset| #[trigger]
                count_in(output@, r) == count_in(old(output)@, r) + owned_live_at(
                    board@,
                    row as int,
                    col as int,
                    r,
                ) by {
                lemma_count_push(old(output)@, cell.ruleset, r);
            }
        }
    }
}

/// Appends the rulesets of the live cells beside `(row, col)` in its row, and
/// of the cell itself when `include_center` holds.
fn adjacent_live_rulesets_row(
    output: &mut Vec<Ruleset>,
    board: &Board,
    row: usize,
    col: usize,
    include_center: bool,
)
    requires
        board.wf(),
        row < board.height,
        col < board.width,
    ensures
        forall|r: Ruleset|
            #[trigger] count_in(final(output)@, r) == count_in(old(output)@, r) + owned_live_at(
                board@,
                row as int,
                col as int - 1,
                r,
            ) + (if include_center {
                owned_live_at(board@, row as int, col as int, r)
            } else {
                0
            }) + owned_live_at(board@, row as int, col as int + 1, r),
        final(output)@.len() <= old(output)@.len() + 3,
{
    if col > 0 {
        push_ruleset_if_live(output, board, row, col - 1);
    }
    if include_center {
        push_ruleset_if_live(output, board, row, col);
    }
    if col + 1 < board.width {
        push_ruleset_if_live(output, board, row, col + 1);
    }
}

/// Appends the rulesets of the live cells among the eight neighbours of
/// `(row, col)`, and of the cell itself when `include_center` holds.
fn collect_live_rulesets(
    output: &mut Vec<Ruleset>,
    board: &Board,
    row: usize,
    col: usize,
    include_center: bool,
)
    requires
        board.wf(),
        row < board.height,
        col < board.width,
    ensures
        forall|r: Ruleset|
            #[trigger] count_in(final(output)@, r) == count_in(old(output)@, r) + population(
                board@,
                row as int,
                col as int,
                r,
            ) + (if include_center {
                owned_live_at(board@, row as int, col as int, r)
            } else {
                0
            }),
        final(output)@.len() <= old(output)@.len() + 9,
{
    if row > 0 {
        adjacent_live_rulesets_row(output, board, row - 1, col, true);
    }
    adjacent_live_rulesets_row(output, board, row, col, include_center);
    if row + 1 < board.height {
        adjacent_live_rulesets_row(output, board, row + 1, col, true);
    }
}

pub open spec fn sorted_by_declaration(s: Seq<Ruleset>) -> bool {
    forall|i: int, j: int|
        0 <= i < j < s.len() ==> ruleset_index(#[trigger] s[i]) <= ruleset_index(#[trigger] s[j])
}

proof fn lemma_count_take_step(s: Seq<Ruleset>, j: int, r: Ruleset)
    requires
        0 <= j < s.len(),
    ensures
        count_in(s.take(j + 1), r) == count_in(s.take(j), r) + if s[j] == r {
            1nat
        } else {
            0nat
        },
{
    assert(s.take(j + 1) =~= s.take(j).push(s[j]));
    lemma_count_push(s.take(j), s[j], r);
}

/// Replaces `output` with the rulesets of the live cells in the 3x3 block
/// centred on `(row, col)`, the centre included, in declaration order.
pub fn adjacent_live_rulesets(output: &mut Vec<Ruleset>, board: &Board, row: usize, col: usize)
    requires
        board.wf(),
        row < board.height,
        col < board.width,
    ensures
        sorted_by_declaration(final(output)@),
        forall|r: Ruleset|
            #[trigger] count_in(final(output)@, r) == block_population(
                board@,
                row as int,
                col as int,
                r,
            ),
{
    let mut seen: Vec<Ruleset> = Vec::new();
    collect_live_rulesets(&mut seen, board, row, col, true);
    assert forall|r: Ruleset| #[trigger]
        count_in(seen@, r) == block_population(board@, row as int, col as int, r) by {
        assert(count_in(Seq::<Ruleset>::empty(), r) == 0);
    }
    output.clear();
    let mut k: usize = 0;
    while k < RULESET_COUNT
        invariant
            k <= RULESET_COUNT,
            sorted_by_declaration(output@),
            forall|i: int| 0 <= i < output@.len() ==> ruleset_index(#[trigger] output@[i]) < k,
            forall|r: Ruleset|
                #[trigger] count_in(output@, r) == if ruleset_index(r) < k {
                    count_in(seen@, r)
                } else {
                    0
                },
        decreases RULESET_COUNT - k,
    {
        let target = Ruleset::from_index(k);
        let mut j: usize = 0;
        while j < seen.len()
            invariant
                k < RULESET_COUNT,
                ruleset_index(target) == k,
                j <= seen@.len(),
                sorted_by_declaration(output@),
                forall|i: int| 0 <= i < output@.len() ==> ruleset_index(#[trigger] output@[i]) <= k,
                forall|r: Ruleset|
                    #[trigger] count_in(output@, r) == if ruleset_index(r) < k {
                        count_in(seen@, r)
                    } else if r == target {
                        count_in(seen@.take(j as int), r)
                    } else {
                        0
                    },
            decreases seen@.len() - j,
        {
            let ghost before = output@;
            if seen[j] == target {
                output.push(target);
            }
            proof {
                assert forall|r: Ruleset| #[trigger]
                    count_in(output@, r) == if ruleset_index(r) < k {
                        count_in(seen@, r)
                    } else if r == target {
                        count_in(seen@.take(j + 1), r)
                    } else {
                        0
                    } by {
                    lemma_count_take_step(seen@, j as int, r);
                    if seen@[j as int] == target {
                        lemma_count_push(before, target, r);
                    }
                }
            }
            j = j + 1;
        }
        proof {
            assert(seen@.take(seen@.len() as int) =~= seen@);
        }
        k = k + 1;
    }
}

/// Whether `a` ranks before `b`: it has more occurrences, or as many and an
/// earlier declaration.
pub open spec fn ranks_before(a: (Ruleset, u8), b: (Ruleset, u8)) -> bool {
    a.1 > b.1 || (a.1 == b.1 && ruleset_index(a.0) < ruleset_index(b.0))
}

/// `ranked` lists each ruleset that occurs in `s` once, with its number of
/// occurrences, most frequent first; equal counts keep declaration order.
pub open spec fn is_population_ranking(ranked: Seq<(Ruleset, u8)>, s: Seq<Ruleset>) -> bool {
    &&& forall|i: int|
        0 <= i < ranked.len() ==> (#[trigger] ranked[i]).1 == count_in(s, ranked[i].0)
            && ranked[i].1 > 0
    &&& forall|r: Ruleset|
        #![trigger count_in(s, r)]
        count_in(s, r) > 0 ==> exists|i: int| 0 <= i < ranked.len() && (#[trigger] ranked[i]).0 == r
    &&& forall|i: int, j: int|
        0 <= i < j < ranked.len() ==> ranks_before(#[trigger] ranked[i], #[trigger] ranked[j])
}

/// Replaces `result` with the rulesets that occur in `rulesets`, each with its
/// number of occurrences, most frequent first. Rulesets that occur equally
/// often come in declaration order.
pub fn sort_rulesets_by_population(result: &mut Vec<(Ruleset, u8)>, rulesets: &[Ruleset])
    requires
        rulesets@.len() <= 255,
    ensures
        is_population_ranking(final(result)@, rulesets@),
{
    let mut counts: Vec<u8> = Vec::new();
    while counts.len() < RULESET_COUNT
        invariant
            counts@.len() <= RULESET_COUNT,
            forall|k: int| 0 <= k < counts@.len() ==> #[trigger] counts@[k] == 0,
        decreases RULESET_COUNT - counts@.len(),
    {
        counts.push(0);
    }
    let mut i: usize = 0;
    while i < rulesets.len()
        invariant
            rulesets@.len() <= 255,
            i <= rulesets@.len(),
            counts@.len() == RULESET_COUNT,
            forall|k: int|
                0 <= k < RULESET_COUNT ==> #[trigger] counts@[k] == count_in(
                    rulesets@.take(i as int),
                    ruleset_at(k),
                ) && counts@[k] <= i,
        decreases rulesets@.len() - i,
    {
        let k = rulesets[i].index();
        let c = counts[k];
        counts.set(k, c + 1);
        proof {
            assert forall|m: int| 0 <= m < RULESET_COUNT implies #[trigger] counts@[m]
                == count_in(rulesets@.take(i + 1), ruleset_at(m)) && counts@[m] <= i + 1 by {
                lemma_count_take_step(rulesets@, i as int, ruleset_at(m));
                lemma_ruleset_at_index(rulesets@[i as int]);
            }
        }
        i = i + 1;
    }
    proof {
        assert(rulesets@.take(rulesets@.len() as int) =~= rulesets@);
    }
    result.clear();
    let mut c: usize = rulesets.len();
    proof {
        assert forall|r: Ruleset| #[trigger] count_in(rulesets@, r) <= c by {
            lemma_count_bound(rulesets@, r);
        }
    }
    while c > 0
        invariant
            c <= rulesets@.len() <= 255,
            counts@.len() == RULESET_COUNT,
            forall|k: int|
                0 <= k < RULESET_COUNT ==> #[trigger] counts@[k] == count_in(
                    rulesets@,
                    ruleset_at(k),
                ) && counts@[k] <= rulesets@.len(),
            forall|j: int|
                0 <= j < result@.len() ==> (#[trigger] result@[j]).1 == count_in(
                    rulesets@,
                    result@[j].0,
                ) && result@[j].1 > c,
            forall|r: Ruleset|
                #![trigger count_in(rulesets@, r)]
                count_in(rulesets@, r) > c ==> exists|j: int|
                    0 <= j < result@.len() && (#[trigger] result@[j]).0 == r,
            forall|a: int, b: int|
                0 <= a < b < result@.len() ==> ranks_before(
                    #[trigger] result@[a],
                    #[trigger] result@[b],
                ),
        decreases c,
    {
        let mut k: usize = 0;
        while k < RULESET_COUNT
            invariant
                0 < c <= rulesets@.len() <= 255,
                k <= RULESET_COUNT,
                counts@.len() == RULESET_COUNT,
                forall|m: int|
                    0 <= m < RULESET_COUNT ==> #[trigger] counts@[m] == count_in(
                        rulesets@,
                        ruleset_at(m),
                    ) && counts@[m] <= rulesets@.len(),
                forall|j: int|
                    0 <= j < result@.len() ==> (#[trigger] result@[j]).1 == count_in(
                        rulesets@,
                        result@[j].0,
                    ) && (result@[j].1 > c || (result@[j].1 == c && ruleset_index(result@[j].0)
                        < k)),
                forall|r: Ruleset|
                    #![trigger count_in(rulesets@, r)]
                    (count_in(rulesets@, r) > c || (count_in(rulesets@, r) == c && ruleset_index(r)
                        < k)) ==> exists|j: int|
                        0 <= j < result@.len() && (#[trigger] result@[j]).0 == r,
                forall|a: int, b: int|
                    0 <= a < b < result@.len() ==> ranks_before(
                        #[trigger] result@[a],
                        #[trigger] result@[b],
                    ),
            decreases RULESET_COUNT - k,
        {
            if counts[k] as usize == c {
                let r = Ruleset::from_index(k);
                let ghost before = result@;
                result.push((r, c as u8));
                proof {
                    assert(result@[before.len() as int] == (r, c as u8));
                    assert forall|j: int| 0 <= j < before.len() implies result@[j] == before[j] by {}
                    assert forall|q: Ruleset|
                        #![trigger count_in(rulesets@, q)]
                        (count_in(rulesets@, q) > c || (count_in(rulesets@, q) == c
                            && ruleset_index(q) < k + 1)) implies exists|j: int|
                        0 <= j < result@.len() && (#[trigger] result@[j]).0 == q by {
                        lemma_ruleset_at_index(q);
                        if count_in(rulesets@, q) == c && ruleset_index(q) == k {
                            assert(result@[before.len() as int].0 == q);
                        } else {
                            let j = choose|j: int|
                                0 <= j < before.len() && (#[trigger] before[j]).0 == q;
                            assert(result@[j].0 == q);
                        }
                    }
                }
            } else {
                proof {
                    assert forall|q: Ruleset|
                        #![trigger count_in(rulesets@, q)]
                        (count_in(rulesets@, q) > c || (count_in(rulesets@, q) == c
                            && ruleset_index(q) < k + 1)) implies exists|j: int|
                        0 <= j < result@.len() && (#[trigger] result@[j]).0 == q by {
                        lemma_ruleset_at_index(q);
                    }
                }
            }
            k = k + 1;
        }
        proof {
            assert forall|r: Ruleset|
                #![trigger count_in(rulesets@, r)]
                count_in(rulesets@, r) > c - 1 implies exists|j: int|
                    0 <= j < result@.len() && (#[trigger] result@[j]).0 == r by {
                lemma_ruleset_at_index(r);
            }
        }
        c = c - 1;
    }
}

/// Whether ruleset `r` wants the cell at `(row, col)`: some live neighbour
/// belongs to it, and its own transition would leave the cell live.
pub open spec fn wants(g: Grid, row: int, col: int, r: Ruleset) -> bool {
    population(g, row, col, r) > 0 && is_live(transition(r, g, row, col))
}

/// Whether `a` outranks `b` around `(row, col)`: more live neighbours belong
/// to it, or as many and it is declared earlier.
pub open spec fn outranks(g: Grid, row: int, col: int, a: Ruleset, b: Ruleset) -> bool {
    population(g, row, col, a) > population(g, row, col, b) || (population(g, row, col, a)
        == population(g, row, col, b) && ruleset_index(a) < ruleset_index(b))
}

/// Whether `w` wins the cell: it wants the cell and outranks every other
/// ruleset that does.
pub open spec fn is_growth_winner(g: Grid, row: int, col: int, w: Ruleset) -> bool {
    wants(g, row, col, w) && forall|r: Ruleset|
        #![trigger wants(g, row, col, r)]
        wants(g, row, col, r) && r != w ==> outranks(g, row, col, w, r)
}

/// The ruleset that wins the cell, if any ruleset wants it.
pub open spec fn growth_winner(g: Grid, row: int, col: int) -> Option<Ruleset> {
    if exists|w: Ruleset| is_growth_winner(g, row, col, w) {
        Some(choose|w: Ruleset| is_growth_winner(g, row, col, w))
    } else {
        None
    }
}

/// Whether live neighbours of `(row, col)` belong to two or more rulesets.
pub open spec fn competing(g: Grid, row: int, col: int) -> bool {
    exists|a: Ruleset, b: Ruleset|
        a != b && population(g, row, col, a) > 0 && population(g, row, col, b) > 0
}

/// There is at most one winner.
pub proof fn lemma_winner_unique(g: Grid, row: int, col: int, w: Ruleset)
    requires
        is_growth_winner(g, row, col, w),
    ensures
        growth_winner(g, row, col) == Some(w),
{
    let v = choose|v: Ruleset| is_growth_winner(g, row, col, v);
    assert(is_growth_winner(g, row, col, v));
    if v != w {
        assert(wants(g, row, col, v));
        assert(wants(g, row, col, w));
        assert(outranks(g, row, col, w, v));
        assert(outranks(g, row, col, v, w));
    }
}

/// Scratch space for settling one contested cell, reused from cell to cell.
/// Each call of `find_neighboring_rulesets` overwrites all of it.
pub struct Growth {
    all_live_neighboring_rulesets: Vec<Ruleset>,
    live_rulesets_by_population: Vec<(Ruleset, u8)>,
    possible_next_cells: Vec<Cell>,
    grid: Ghost<Grid>,
    row: Ghost<int>,
    col: Ghost<int>,
}

impl Growth {
    /// The scratch space describes the neighbourhood of `(row, col)` in `grid`.
    pub closed spec fn found(&self) -> bool {
        let g = self.grid@;
        let row = self.row@;
        let col = self.col@;
        let ranked = self.live_rulesets_by_population@;
        let next = self.possible_next_cells@;
        &&& is_population_ranking(ranked, self.all_live_neighboring_rulesets@)
        &&& forall|r: Ruleset|
            #[trigger] count_in(self.all_live_neighboring_rulesets@, r) == population(
                g,
                row,
                col,
                r,
            )
        &&& (ranked.len() > 1 <==> competing(g, row, col))
        &&& competing(g, row, col) ==> (next.len() > 0 <==> growth_winner(g, row, col).is_some())
        &&& competing(g, row, col) && next.len() > 0 ==> growth_winner(g, row, col) == Some(
            next[0].ruleset,
        ) && next[0] == transition(next[0].ruleset, g, row, col)
    }

    /// The grid position that the scratch space describes.
    pub closed spec fn position(&self) -> (Grid, int, int) {
        (self.grid@, self.row@, self.col@)
    }

    /// Empty scratch space, describing no position yet.
    pub fn new() -> (g: Growth)
        ensures
            g.position() == (Grid { cells: Seq::empty(), width: 0, height: 0 }, 0int, 0int),
    {
        Growth {
            all_live_neighboring_rulesets: Vec::new(),
            live_rulesets_by_population: Vec::new(),
            possible_next_cells: Vec::new(),
            grid: Ghost(Grid { cells: Seq::empty(), width: 0, height: 0 }),
            row: Ghost(0),
            col: Ghost(0),
        }
    }

    /// Gathers the live neighbours of `(row, col)` and, where more than one
    /// ruleset is among them, what each of those rulesets would make of it.
    pub fn find_neighboring_rulesets(&mut self, board: &Board, row: usize, col: usize)
        requires
            board.wf(),
            row < board.height,
            col < board.width,
        ensures
            final(self).found(),
            final(self).position() == (board@, row as int, col as int),
    {
        let ghost g = board@;
        self.grid = Ghost(g);
        self.row = Ghost(row as int);
        self.col = Ghost(col as int);
        self.all_live_neighboring_rulesets.clear();
        collect_live_rulesets(&mut self.all_live_neighboring_rulesets, board, row, col, false);
        proof {
            assert forall|r: Ruleset| #[trigger]
                count_in(self.all_live_neighboring_rulesets@, r) == population(
                    g,
                    row as int,
                    col as int,
                    r,
                ) by {
                assert(count_in(Seq::<Ruleset>::empty(), r) == 0);
            }
        }
        sort_rulesets_by_population(
            &mut self.live_rulesets_by_population,
            self.all_live_neighboring_rulesets.as_slice(),
        );
        let ghost all = self.all_live_neighboring_rulesets@;
        let ghost ranked = self.live_rulesets_by_population@;
        proof {
            lemma_ranking_competing(g, row as int, col as int, all, ranked);
        }
        self.possible_next_cells.clear();
        if self.live_rulesets_by_population.len() > 1 {
            let mut k: usize = 0;
            let ghost mut first: int = -1;
            while k < self.live_rulesets_by_population.len()
                invariant
                    board.wf(),
                    row < board.height,
                    col < board.width,
                    g == board@,
                    self.grid@ == g,
                    self.row@ == row as int,
                    self.col@ == col as int,
                    ranked == self.live_rulesets_by_population@,
                    all == self.all_live_neighboring_rulesets@,
                    k <= ranked.len(),
                    self.possible_next_cells@.len() == 0 ==> forall|m: int|
                        0 <= m < k ==> !is_live(
                            transition(#[trigger] ranked[m].0, g, row as int, col as int),
                        ),
                    self.possible_next_cells@.len() > 0 ==> 0 <= first < k
                        && self.possible_next_cells@[0] == transition(
                        ranked[first].0,
                        g,
                        row as int,
                        col as int,
                    ) && is_live(self.possible_next_cells@[0]) && forall|m: int|
                        0 <= m < first ==> !is_live(
                            transition(#[trigger] ranked[m].0, g, row as int, col as int),
                        ),
                decreases ranked.len() - k,
            {
                let ruleset = self.live_rulesets_by_population[k].0;
                let possible_next = ruleset.next_cell_state(board, row, col);
                if cell_is_live(&possible_next) {
                    proof {
                        if self.possible_next_cells@.len() == 0 {
                            first = k as int;
                        }
                    }
                    self.possible_next_cells.push(possible_next);
                }
                k = k + 1;
            }
            proof {
                let next = self.possible_next_cells@;
                if next.len() > 0 {
                    lemma_first_live_wins(g, row as int, col as int, all, ranked, first);
                    lemma_winner_unique(g, row as int, col as int, ranked[first].0);
                } else {
                    lemma_none_live_no_winner(g, row as int, col as int, all, ranked);
                }
            }
        }
    }

    /// Whether live neighbours of the gathered cell belong to two or more
    /// rulesets.
    pub fn has_competing_rulesets(&self) -> (r: bool)
        requires
            self.found(),
        ensures
            r == competing(self.position().0, self.position().1, self.position().2),
    {
        self.live_rulesets_by_population.len() > 1
    }

    /// The cell that the winning ruleset makes of the gathered cell, if any
    /// ruleset wants it.
    pub fn next_live_state(&self) -> (r: Option<Cell>)
        requires
            self.found(),
            competing(self.position().0, self.position().1, self.position().2),
        ensures
            r == (match growth_winner(self.position().0, self.position().1, self.position().2) {
                Some(w) => Some(transition(w, self.position().0, self.position().1, self.position().2)),
                None => None,
            }),
    {
        if self.possible_next_cells.len() > 0 {
            Some(self.possible_next_cells[0])
        } else {
            None
        }
    }
}

proof fn lemma_ranking_competing(
    g: Grid,
    row: int,
    col: int,
    all: Seq<Ruleset>,
    ranked: Seq<(Ruleset, u8)>,
)
    requires
        is_population_ranking(ranked, all),
        forall|r: Ruleset| #[trigger] count_in(all, r) == population(g, row, col, r),
    ensures
        ranked.len() > 1 <==> competing(g, row, col),
{
    if ranked.len() > 1 {
        assert(ranks_before(ranked[0], ranked[1]));
        assert(count_in(all, ranked[0].0) > 0);
        assert(count_in(all, ranked[1].0) > 0);
        assert(ranked[0].0 != ranked[1].0);
        assert(population(g, row, col, ranked[0].0) > 0);
        assert(population(g, row, col, ranked[1].0) > 0);
    }
    if competing(g, row, col) {
        let (a, b) = choose|a: Ruleset, b: Ruleset|
            a != b && population(g, row, col, a) > 0 && population(g, row, col, b) > 0;
        assert(count_in(all, a) > 0);
        assert(count_in(all, b) > 0);
        let ia = choose|i: int| 0 <= i < ranked.len() && (#[trigger] ranked[i]).0 == a;
        let ib = choose|i: int| 0 <= i < ranked.len() && (#[trigger] ranked[i]).0 == b;
        assert(ia != ib);
    }
}

proof fn lemma_first_live_wins(
    g: Grid,
    row: int,
    col: int,
    all: Seq<Ruleset>,
    ranked: Seq<(Ruleset, u8)>,
    first: int,
)
    requires
        is_population_ranking(ranked, all),
        forall|r: Ruleset| #[trigger] count_in(all, r) == population(g, row, col, r),
        0 <= first < ranked.len(),
        is_live(transition(ranked[first].0, g, row, col)),
        forall|m: int|
            0 <= m < first ==> !is_live(transition(#[trigger] ranked[m].0, g, row, col)),
    ensures
        is_growth_winner(g, row, col, ranked[first].0),
{
    let w = ranked[first].0;
    assert(count_in(all, w) > 0);
    assert forall|r: Ruleset| #[trigger] wants(g, row, col, r) && r != w implies outranks(
        g,
        row,
        col,
        w,
        r,
    ) by {
        assert(count_in(all, r) > 0);
        let m = choose|i: int| 0 <= i < ranked.len() && (#[trigger] ranked[i]).0 == r;
        if m < first {
            assert(!is_live(transition(ranked[m].0, g, row, col)));
        } else {
            assert(m != first);
            assert(ranks_before(ranked[first], ranked[m]));
        }
    }
}

proof fn lemma_none_live_no_winner(
    g: Grid,
    row: int,
    col: int,
    all: Seq<Ruleset>,
    ranked: Seq<(Ruleset, u8)>,
)
    requires
        is_population_ranking(ranked, all),
        forall|r: Ruleset| #[trigger] count_in(all, r) == population(g, row, col, r),
        forall|m: int|
            0 <= m < ranked.len() ==> !is_live(transition(#[trigger] ranked[m].0, g, row, col)),
    ensures
        growth_winner(g, row, col).is_none(),
{
    assert forall|w: Ruleset| !is_growth_winner(g, row, col, w) by {
        if wants(g, row, col, w) {
            assert(count_in(all, w) > 0);
            let m = choose|i: int| 0 <= i < ranked.len() && (#[trigger] ranked[i]).0 == w;
            assert(!is_live(transition(ranked[m].0, g, row, col)));
        }
    }
}

} // verus!

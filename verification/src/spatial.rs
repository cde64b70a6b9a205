//! The spatial game: strategies on a toroidal grid. Each step every cell
//! plays a match against each neighbour, then adopts the strategy of the
//! best-scoring cell of its neighbourhood (itself included).

use vstd::prelude::*;
use std::sync::Arc;

use crate::action::{first_total, max_abs_payoff, Action};
use crate::census::{is_census, names_distinct, tally, total_count};
use crate::chance::{draw_below, entropy_rng, picked_below, seeded_rng};
use crate::game::{chances_valid, possible_match, Game};
use crate::strategy::Strategy;
use crate::tournament::lemma_wrapping_add_is_mod;

verus! {

/// Which cells count as neighbours.
#[derive(Clone, Copy, Debug, PartialEq, Eq, Structural)]
pub enum Neighborhood {
    /// The 8 surrounding cells.
    Moore,
    /// The 4 orthogonal cells.
    VonNeumann,
    /// 6 cells of a hex grid in offset coordinates; the stencil depends on
    /// the parity of the row.
    Hex,
}

pub open spec fn moore_offsets() -> Seq<(i32, i32)> {
    seq![(-1i32, -1i32), (-1i32, 0), (-1i32, 1), (0, -1i32), (0, 1), (1, -1i32), (1, 0), (1, 1)]
}

pub open spec fn von_neumann_offsets() -> Seq<(i32, i32)> {
    seq![(-1i32, 0i32), (1, 0), (0, -1i32), (0, 1)]
}

pub open spec fn hex_even_offsets() -> Seq<(i32, i32)> {
    seq![(-1i32, -1i32), (-1i32, 0), (0, -1i32), (0, 1), (1, -1i32), (1, 0)]
}

pub open spec fn hex_odd_offsets() -> Seq<(i32, i32)> {
    seq![(-1i32, 0i32), (-1i32, 1), (0, -1i32), (0, 1), (1, 0), (1, 1)]
}

/// The `(dy, dx)` offsets of a neighbourhood; only Hex reads `even_row`.
pub open spec fn neighborhood_offsets(topology: Neighborhood, even_row: bool) -> Seq<(i32, i32)> {
    match topology {
        Neighborhood::Moore => moore_offsets(),
        Neighborhood::VonNeumann => von_neumann_offsets(),
        Neighborhood::Hex => if even_row {
            hex_even_offsets()
        } else {
            hex_odd_offsets()
        },
    }
}

impl Neighborhood {
    pub fn offsets(self, even_row: bool) -> (r: &'static [(i32, i32)])
        ensures
            r@ == neighborhood_offsets(self, even_row),
    {
        match self {
            Neighborhood::Moore => {
                let r: &'static [(i32, i32)] = &[
                    (-1, -1),
                    (-1, 0),
                    (-1, 1),
                    (0, -1),
                    (0, 1),
                    (1, -1),
                    (1, 0),
                    (1, 1),
                ];
                assert(r@ =~= moore_offsets());
                r
            },
            Neighborhood::VonNeumann => {
                let r: &'static [(i32, i32)] = &[(-1, 0), (1, 0), (0, -1), (0, 1)];
                assert(r@ =~= von_neumann_offsets());
                r
            },
            Neighborhood::Hex => if even_row {
                let r: &'static [(i32, i32)] = &[(-1, -1), (-1, 0), (0, -1), (0, 1), (1, -1), (1, 0)];
                assert(r@ =~= hex_even_offsets());
                r
            } else {
                let r: &'static [(i32, i32)] = &[(-1, 0), (-1, 1), (0, -1), (0, 1), (1, 0), (1, 1)];
                assert(r@ =~= hex_odd_offsets());
                r
            },
        }
    }
}

/// Every stencil holds 8, 4 or 6 distinct unit steps, never the cell
/// itself; Von Neumann steps are orthogonal; the two hex stencils differ.
pub proof fn law_stencil_shapes(topology: Neighborhood, even_row: bool)
    ensures
        neighborhood_offsets(Neighborhood::Moore, even_row).len() == 8,
        neighborhood_offsets(Neighborhood::VonNeumann, even_row).len() == 4,
        neighborhood_offsets(Neighborhood::Hex, even_row).len() == 6,
        forall|i: int|
            0 <= i < neighborhood_offsets(topology, even_row).len() ==> {
                let o = #[trigger] neighborhood_offsets(topology, even_row)[i];
                &&& -1 <= o.0 <= 1
                &&& -1 <= o.1 <= 1
                &&& !(o.0 == 0 && o.1 == 0)
            },
        forall|i: int, j: int|
            0 <= i < j < neighborhood_offsets(topology, even_row).len() ==> #[trigger] neighborhood_offsets(
                topology,
                even_row,
            )[i] != #[trigger] neighborhood_offsets(topology, even_row)[j],
        forall|i: int|
            0 <= i < 4 ==> {
                let o = #[trigger] von_neumann_offsets()[i];
                (o.0 == 0) != (o.1 == 0)
            },
        hex_even_offsets() != hex_odd_offsets(),
{
    assert(hex_even_offsets()[0] != hex_odd_offsets()[0]);
}

/// `v + d` on a ring of `n` positions, for a unit step `d`.
pub open spec fn wrap(v: int, d: int, n: int) -> int {
    if v + d < 0 {
        v + d + n
    } else if v + d >= n {
        v + d - n
    } else {
        v + d
    }
}

/// The flat index of the neighbour of cell `idx` at offset `off`, on a
/// torus of `width` columns and `height` rows stored row by row.
pub open spec fn neighbour_of(width: int, height: int, idx: int, off: (i32, i32)) -> int {
    wrap(idx / width, off.0 as int, height) * width + wrap(idx % width, off.1 as int, width)
}

/// The stencil of cell `idx`: Hex depends on whether its row is even.
pub open spec fn stencil_of(topology: Neighborhood, width: int, idx: int) -> Seq<(i32, i32)> {
    neighborhood_offsets(topology, (idx / width) % 2 == 0)
}

/// Scanning the first `k` neighbours of `idx` in stencil order, starting
/// from the cell itself: the best score so far and the strategy it holds.
/// A neighbour replaces the current best only with a strictly higher score.
pub open spec fn adopt_scan(
    grid: Seq<usize>,
    scores: Seq<i32>,
    width: int,
    height: int,
    topology: Neighborhood,
    idx: int,
    k: nat,
) -> (int, usize)
    decreases k,
{
    if k == 0 {
        (scores[idx] as int, grid[idx])
    } else {
        let prev = adopt_scan(grid, scores, width, height, topology, idx, (k - 1) as nat);
        let n = neighbour_of(width, height, idx, stencil_of(topology, width, idx)[k - 1]);
        if scores[n] > prev.0 {
            (scores[n] as int, grid[n])
        } else {
            prev
        }
    }
}

/// The strategy cell `idx` holds after the update pass.
pub open spec fn adopted(
    grid: Seq<usize>,
    scores: Seq<i32>,
    width: int,
    height: int,
    topology: Neighborhood,
    idx: int,
) -> usize {
    adopt_scan(grid, scores, width, height, topology, idx, stencil_of(topology, width, idx).len()).1
}

/// The cell keeps its strategy unless a neighbour scored strictly more;
/// what it adopts always comes from a cell of its neighbourhood (itself
/// included) whose score is the highest there.
pub proof fn law_adoption_follows_the_best(
    grid: Seq<usize>,
    scores: Seq<i32>,
    width: int,
    height: int,
    topology: Neighborhood,
    idx: int,
    k: nat,
)
    requires
        k <= stencil_of(topology, width, idx).len(),
    ensures
        ({
            let best = adopt_scan(grid, scores, width, height, topology, idx, k);
            &&& best.0 >= scores[idx]
            &&& forall|j: int|
                0 <= j < k ==> best.0 >= scores[neighbour_of(
                    width,
                    height,
                    idx,
                    #[trigger] stencil_of(topology, width, idx)[j],
                )]
            &&& (best.0 == scores[idx] && best.1 == grid[idx]) || exists|j: int|
                0 <= j < k && best.0 == scores[neighbour_of(
                    width,
                    height,
                    idx,
                    #[trigger] stencil_of(topology, width, idx)[j],
                )] && best.1 == grid[neighbour_of(width, height, idx, stencil_of(topology, width, idx)[j])]
        }),
    decreases k,
{
    if k > 0 {
        law_adoption_follows_the_best(grid, scores, width, height, topology, idx, (k - 1) as nat);
        let prev = adopt_scan(grid, scores, width, height, topology, idx, (k - 1) as nat);
        let best = adopt_scan(grid, scores, width, height, topology, idx, k);
        let st = stencil_of(topology, width, idx);
        if !(best.0 == scores[idx] && best.1 == grid[idx]) {
            if best == prev {
                let j = choose|j: int|
                    0 <= j < k - 1 && prev.0 == scores[neighbour_of(width, height, idx, #[trigger] st[j])]
                        && prev.1 == grid[neighbour_of(width, height, idx, st[j])];
                assert(0 <= j < k && best.0 == scores[neighbour_of(width, height, idx, st[j])]);
            } else {
                assert(best.0 == scores[neighbour_of(width, height, idx, st[k - 1])]);
            }
        }
    }
}

/// Stepping by one on the ring is the Euclidean remainder of `v + d`
/// modulo `n`: the grid wraps around in both directions.
pub proof fn law_wrap_is_euclidean_remainder(v: int, d: int, n: int)
    requires
        0 <= v < n,
        -1 <= d <= 1,
    ensures
        wrap(v, d, n) == (v + d) % n,
        0 <= wrap(v, d, n) < n,
{
    if v + d < 0 {
        vstd::arithmetic::div_mod::lemma_fundamental_div_mod_converse(v + d, n, -1, v + d + n);
    } else if v + d >= n {
        vstd::arithmetic::div_mod::lemma_fundamental_div_mod_converse(v + d, n, 1, v + d - n);
    } else {
        vstd::arithmetic::div_mod::lemma_fundamental_div_mod_converse(v + d, n, 0, v + d);
    }
}

/// Every neighbour of a cell of the torus is a cell of the torus.
pub proof fn law_neighbours_stay_on_the_torus(topology: Neighborhood, width: int, height: int, idx: int, j: int)
    requires
        0 <= idx < width * height,
        0 <= width,
        0 <= height,
        0 <= j < stencil_of(topology, width, idx).len(),
    ensures
        0 <= neighbour_of(width, height, idx, stencil_of(topology, width, idx)[j]) < width * height,
{
    lemma_cell_coords(idx, width, height);
    law_stencil_shapes(topology, (idx / width) % 2 == 0);
    let off = stencil_of(topology, width, idx)[j];
    law_wrap_is_euclidean_remainder(idx / width, off.0 as int, height);
    law_wrap_is_euclidean_remainder(idx % width, off.1 as int, width);
    lemma_cell_index(
        wrap(idx / width, off.0 as int, height),
        wrap(idx % width, off.1 as int, width),
        width,
        height,
    );
}

/// After the update pass every cell holds a strategy that some cell held
/// before it: a step never brings in a strategy absent from the grid, so
/// the census can only lose names.
pub proof fn law_adoption_keeps_existing_strategies(
    grid: Seq<usize>,
    scores: Seq<i32>,
    width: int,
    height: int,
    topology: Neighborhood,
    idx: int,
)
    requires
        0 <= width,
        0 <= height,
        grid.len() == width * height,
        0 <= idx < width * height,
    ensures
        exists|j: int| 0 <= j < grid.len() && adopted(grid, scores, width, height, topology, idx) == #[trigger] grid[j],
{
    let st = stencil_of(topology, width, idx);
    law_adoption_follows_the_best(grid, scores, width, height, topology, idx, st.len());
    let best = adopt_scan(grid, scores, width, height, topology, idx, st.len());
    if !(best.0 == scores[idx] && best.1 == grid[idx]) {
        let k = choose|k: int|
            0 <= k < st.len() && best.0 == scores[neighbour_of(width, height, idx, #[trigger] st[k])] && best.1
                == grid[neighbour_of(width, height, idx, st[k])];
        law_neighbours_stay_on_the_torus(topology, width, height, idx, k);
        let n = neighbour_of(width, height, idx, st[k]);
        assert(0 <= n < grid.len() && adopted(grid, scores, width, height, topology, idx) == grid[n]);
    } else {
        assert(adopted(grid, scores, width, height, topology, idx) == grid[idx]);
    }
}

proof fn lemma_cell_coords(idx: int, width: int, height: int)
    requires
        0 <= idx < width * height,
        width >= 0,
        height >= 0,
    ensures
        width > 0,
        height > 0,
        0 <= idx / width < height,
        0 <= idx % width < width,
{
    assert(width > 0 && height > 0) by (nonlinear_arith)
        requires
            0 <= idx < width * height,
            width >= 0,
            height >= 0,
    ;
    vstd::arithmetic::div_mod::lemma_fundamental_div_mod(idx, width);
    vstd::arithmetic::div_mod::lemma_mod_bound(idx, width);
    let q = idx / width;
    let r = idx % width;
    assert(0 <= q < height) by (nonlinear_arith)
        requires
            idx == width * q + r,
            0 <= r < width,
            0 <= idx < width * height,
            width > 0,
    ;
}

proof fn lemma_cell_index(y: int, x: int, width: int, height: int)
    requires
        0 <= y < height,
        0 <= x < width,
    ensures
        0 <= y * width + x < width * height,
{
    assert(0 <= y * width + x < width * height) by (nonlinear_arith)
        requires
            0 <= y < height,
            0 <= x < width,
    ;
}

fn wrap_step(v: usize, d: i32, n: usize) -> (r: usize)
    requires
        v < n,
        -1 <= d <= 1,
    ensures
        r == wrap(v as int, d as int, n as int),
        r < n,
{
    if d < 0 {
        if v == 0 {
            n - 1
        } else {
            v - 1
        }
    } else if d > 0 {
        if v + 1 == n {
            0
        } else {
            v + 1
        }
    } else {
        v
    }
}

/// The flat index of the neighbour at `(dy, dx)` of the cell in row `y`,
/// column `x`.
fn neighbour_index(y: usize, x: usize, dy: i32, dx: i32, width: usize, height: usize) -> (r: usize)
    requires
        y < height,
        x < width,
        width * height <= usize::MAX,
        -1 <= dy <= 1,
        -1 <= dx <= 1,
    ensures
        r < width * height,
        r == wrap(y as int, dy as int, height as int) * width + wrap(x as int, dx as int, width as int),
{
    let ny = wrap_step(y, dy, height);
    let nx = wrap_step(x, dx, width);
    proof {
        lemma_cell_index(ny as int, nx as int, width as int, height as int);
    }
    ny * width + nx
}

/// The seed of match `n` of cell `idx` at step `step` under the base seed
/// `base`: `base + step * 1_000_003 + idx * 31 + n`, wrapping.
pub open spec fn cell_match_seed(base: u64, step: u64, idx: usize, n: usize) -> u64 {
    base.wrapping_add(step.wrapping_mul(1_000_003)).wrapping_add((idx as u64).wrapping_mul(31)).wrapping_add(
        n as u64,
    )
}

/// The seed of match `n` of cell `idx` at step `step`, when there is a base
/// seed.
pub fn neighbour_match_seed(base_seed: Option<u64>, step: u64, idx: usize, n: usize) -> (r: Option<u64>)
    ensures
        r == match base_seed {
            Some(base) => Some(cell_match_seed(base, step, idx, n)),
            None => None::<u64>,
        },
{
    match base_seed {
        Some(base) => Some(
            base.wrapping_add(step.wrapping_mul(1_000_003)).wrapping_add(
                (idx as u64).wrapping_mul(31),
            ).wrapping_add(n as u64),
        ),
        None => None,
    }
}

proof fn lemma_cell_seed_is_mod(base: u64, step: u64, idx: usize, n: usize)
    ensures
        cell_match_seed(base, step, idx, n) as int == (base + step * 1_000_003 + (idx as u64).wrapping_mul(31) + (
        n as u64)) % 0x1_0000_0000_0000_0000,
{
    let m: int = 0x1_0000_0000_0000_0000;
    let a = step.wrapping_mul(1_000_003);
    let c = (idx as u64).wrapping_mul(31);
    let k = n as u64;
    let x1 = base.wrapping_add(a);
    let x2 = x1.wrapping_add(c);
    lemma_wrapping_add_is_mod(base, a);
    lemma_wrapping_add_is_mod(x1, c);
    lemma_wrapping_add_is_mod(x2, k);
    assert(a as int == (step * 1_000_003) % m);
    vstd::arithmetic::div_mod::lemma_add_mod_noop_right(c as int, base + a, m);
    vstd::arithmetic::div_mod::lemma_add_mod_noop_right(k as int, base + a + c, m);
    assert(x2 as int == (base + a + c) % m) by {
        assert((c + (base + a) % m) % m == (c + (base + a)) % m);
    }
    assert(cell_match_seed(base, step, idx, n) as int == (base + a + c + k) % m) by {
        assert((k + (base + a + c) % m) % m == (k + (base + a + c)) % m);
    }
    vstd::arithmetic::div_mod::lemma_add_mod_noop_right(base + c + k, step * 1_000_003, m);
}

/// Consecutive steps (indeed any two different steps) give every match of
/// every cell a different seed: the step counter is multiplied by an odd
/// constant, which is invertible modulo `2^64`.
pub proof fn law_steps_reseed_every_match(base: u64, t1: u64, t2: u64, idx: usize, n: usize)
    requires
        t1 != t2,
    ensures
        cell_match_seed(base, t1, idx, n) != cell_match_seed(base, t2, idx, n),
{
    let m: int = 0x1_0000_0000_0000_0000;
    let kk: int = 1_000_003;
    let inv: int = 16109806864799210091;
    let c = (idx as u64).wrapping_mul(31) as int;
    let k = n as int;
    lemma_cell_seed_is_mod(base, t1, idx, n);
    lemma_cell_seed_is_mod(base, t2, idx, n);
    if cell_match_seed(base, t1, idx, n) == cell_match_seed(base, t2, idx, n) {
        let x = base + t1 * kk + c + k;
        let y = base + t2 * kk + c + k;
        vstd::arithmetic::div_mod::lemma_mod_equivalence(x, y, m);
        let d = t1 - t2;
        assert(x - y == d * kk) by (nonlinear_arith)
            requires
                x == base + t1 * kk + c + k,
                y == base + t2 * kk + c + k,
                d == t1 - t2,
        ;
        assert((d * kk) % m == 0);
        vstd::arithmetic::div_mod::lemma_mul_mod_noop_left(d * kk, inv, m);
        assert((d * kk) * inv == d * (kk * inv)) by (nonlinear_arith);
        assert((kk * inv) % m == 1);
        vstd::arithmetic::div_mod::lemma_mul_mod_noop_right(d, kk * inv, m);
        assert(d % m == 0);
        vstd::arithmetic::div_mod::lemma_fundamental_div_mod(d, m);
        let q = d / m;
        assert(d == m * q);
        assert(false) by (nonlinear_arith)
            requires
                d == m * q,
                -m < d < m,
                d != 0,
                m > 0,
        ;
    }
}

/// The first player's total over the match histories `hs`.
pub open spec fn summed_first_totals(payoffs: (i32, i32, i32, i32), hs: Seq<Seq<(Action, Action)>>) -> int
    decreases hs.len(),
{
    if hs.len() == 0 {
        0
    } else {
        summed_first_totals(payoffs, hs.drop_last()) + first_total(payoffs, hs.last())
    }
}

/// How many neighbours a cell has under `topology`.
pub open spec fn stencil_size(topology: Neighborhood) -> nat {
    match topology {
        Neighborhood::Moore => 8,
        Neighborhood::VonNeumann => 4,
        Neighborhood::Hex => 6,
    }
}

/// `score` is what cell `idx` of `grid` earns from one match of its pool
/// strategy against the pool strategy of each neighbour of its stencil, in
/// stencil order: the sum of its totals over histories that can be those
/// matches under `game`.
pub open spec fn cell_score_of(
    game: Game,
    pool: Seq<Arc<dyn Strategy>>,
    grid: Seq<usize>,
    width: int,
    height: int,
    topology: Neighborhood,
    idx: int,
    score: i32,
) -> bool {
    exists|hs: Seq<Seq<(Action, Action)>>|
        {
            &&& hs.len() == stencil_of(topology, width, idx).len()
            &&& forall|k: int|
                0 <= k < hs.len() ==> possible_match(
                    game,
                    &*pool[grid[idx] as int],
                    &*pool[grid[neighbour_of(width, height, idx, stencil_of(topology, width, idx)[k])] as int],
                    #[trigger] hs[k],
                )
            &&& score == summed_first_totals(game.payoffs, hs)
        }
}

pub struct SpatialTournament {
    /// Row-major grid of indices into `pool`.
    grid: Vec<usize>,
    width: usize,
    height: usize,
    /// The strategies that cells refer to by index.
    pool: Vec<Arc<dyn Strategy>>,
    pub game: Game,
    pub topology: Neighborhood,
    /// Steps taken so far; mixed into the match seeds so that consecutive
    /// steps draw differently.
    step_count: u64,
}

impl SpatialTournament {
    /// The grid covers `width * height` cells, each naming a pool entry.
    pub closed spec fn wf(&self) -> bool {
        &&& self.width * self.height <= usize::MAX
        &&& self.grid@.len() == self.width * self.height
        &&& forall|k: int| 0 <= k < self.grid@.len() ==> self.grid@[k] < self.pool@.len()
    }

    pub closed spec fn spec_grid(&self) -> Seq<usize> {
        self.grid@
    }

    pub closed spec fn spec_width(&self) -> usize {
        self.width
    }

    pub closed spec fn spec_height(&self) -> usize {
        self.height
    }

    pub closed spec fn spec_pool_len(&self) -> nat {
        self.pool@.len()
    }

    /// The strategies that the cells name by index.
    pub closed spec fn spec_pool(&self) -> Seq<Arc<dyn Strategy>> {
        self.pool@
    }

    pub closed spec fn spec_step_count(&self) -> u64 {
        self.step_count
    }

    pub closed spec fn spec_game(&self) -> Game {
        self.game
    }

    pub closed spec fn spec_topology(&self) -> Neighborhood {
        self.topology
    }

    pub fn new(width: usize, height: usize, strategies: Vec<Arc<dyn Strategy>>, game: Game) -> (t: Self)
        requires
            width * height <= usize::MAX,
            strategies@.len() > 0 || width * height == 0,
        ensures
            t.wf(),
            t.spec_width() == width,
            t.spec_height() == height,
            t.spec_pool_len() == strategies@.len(),
            t.spec_pool() == strategies@,
            forall|k: int|
                0 <= k < t.spec_grid().len() ==> picked_below(strategies@.len() as usize, #[trigger] t.spec_grid()[k]),
            t.spec_game() == game,
            t.spec_topology() == Neighborhood::Moore,
            t.spec_step_count() == 0,
    {
        Self::new_with_topology(width, height, strategies, game, Neighborhood::Moore)
    }

    /// Fills the grid with pool entries drawn uniformly at random, from a
    /// generator seeded with the game's seed when it has one, else from the
    /// operating system (from `FALLBACK_SEED` where it has no entropy to give).
    pub fn new_with_topology(
        width: usize,
        height: usize,
        strategies: Vec<Arc<dyn Strategy>>,
        game: Game,
        topology: Neighborhood,
    ) -> (t: Self)
        requires
            width * height <= usize::MAX,
            strategies@.len() > 0 || width * height == 0,
        ensures
            t.wf(),
            t.spec_width() == width,
            t.spec_height() == height,
            t.spec_pool_len() == strategies@.len(),
            t.spec_pool() == strategies@,
            forall|k: int|
                0 <= k < t.spec_grid().len() ==> picked_below(strategies@.len() as usize, #[trigger] t.spec_grid()[k]),
            t.spec_game() == game,
            t.spec_topology() == topology,
            t.spec_step_count() == 0,
    {
        let mut rng = match game.seed {
            Some(s) => seeded_rng(s),
            None => entropy_rng(),
        };
        let pool = strategies;
        let total = width * height;
        let mut grid: Vec<usize> = Vec::new();
        let mut i: usize = 0;
        while i < total
            invariant
                i <= total,
                total == width * height,
                pool@.len() > 0 || total == 0,
                grid@.len() == i,
                forall|k: int| 0 <= k < grid@.len() ==> grid@[k] < pool@.len(),
                forall|k: int| 0 <= k < grid@.len() ==> picked_below(pool@.len() as usize, #[trigger] grid@[k]),
            decreases total - i,
        {
            let pick = draw_below(&mut rng, pool.len());
            grid.push(pick);
            i = i + 1;
        }
        SpatialTournament { grid, width, height, pool, game, topology, step_count: 0 }
    }

    fn cell(&self, y: usize, x: usize) -> (r: usize)
        requires
            self.wf(),
            y < self.height,
            x < self.width,
        ensures
            r == self.grid@[y * self.width + x],
            r < self.pool@.len(),
    {
        proof {
            lemma_cell_index(y as int, x as int, self.width as int, self.height as int);
        }
        self.grid[y * self.width + x]
    }

    /// The score pass: each cell's total score over one match against each
    /// neighbour of its stencil. Match `n` of cell `idx` at step `t` is
    /// seeded with `seed + t * 1_000_003 + idx * 31 + n` (wrapping) when the
    /// game has a seed.
    pub fn score_cells(&self) -> (scores: Vec<i32>)
        requires
            self.wf(),
            stencil_size(self.spec_topology()) * self.spec_game().iterations * max_abs_payoff(
                self.spec_game().payoffs,
            ) <= i32::MAX,
            chances_valid(self.spec_game()),
        ensures
            scores@.len() == self.spec_width() * self.spec_height(),
            forall|idx: int|
                0 <= idx < scores@.len() ==> cell_score_of(
                    self.spec_game(),
                    self.spec_pool(),
                    self.spec_grid(),
                    self.spec_width() as int,
                    self.spec_height() as int,
                    self.spec_topology(),
                    idx,
                    #[trigger] scores@[idx],
                ),
    {
        let width = self.width;
        let height = self.height;
        let total = width * height;
        let step_id = self.step_count;
        let base_seed = self.game.seed;
        let ghost bound = self.game.iterations * max_abs_payoff(self.game.payoffs);
        proof {
            let m = max_abs_payoff(self.game.payoffs);
            assert(m >= 0);
            let z = stencil_size(self.topology);
            assert(bound >= 0 && z * bound <= i32::MAX) by (nonlinear_arith)
                requires
                    bound == self.game.iterations * m,
                    m >= 0,
                    z * self.game.iterations * m <= i32::MAX,
            ;
        }
        let mut scores: Vec<i32> = Vec::new();
        let mut idx: usize = 0;
        while idx < total
            invariant
                self.wf(),
                total == width * height,
                width == self.width,
                height == self.height,
                idx <= total,
                scores@.len() == idx,
                bound == self.game.iterations * max_abs_payoff(self.game.payoffs),
                0 <= bound,
                stencil_size(self.topology) * bound <= i32::MAX,
                chances_valid(self.game),
                forall|k: int|
                    0 <= k < scores@.len() ==> cell_score_of(
                        self.game,
                        self.pool@,
                        self.grid@,
                        width as int,
                        height as int,
                        self.topology,
                        k,
                        #[trigger] scores@[k],
                    ),
            decreases total - idx,
        {
            proof {
                lemma_cell_coords(idx as int, width as int, height as int);
            }
            let y = idx / width;
            let x = idx % width;
            proof {
                assert(y * width + x == idx) by {
                    vstd::arithmetic::div_mod::lemma_fundamental_div_mod(idx as int, width as int);
                    assert(y * width == width * y) by (nonlinear_arith);
                }
            }
            let s1 = &self.pool[self.cell(y, x)];
            let offsets = self.topology.offsets(y % 2 == 0);
            proof {
                law_stencil_shapes(self.topology, y % 2 == 0);
                assert(offsets@.len() == stencil_size(self.topology));
            }
            let mut cell_score: i32 = 0;
            let ghost mut hs: Seq<Seq<(Action, Action)>> = Seq::empty();
            let mut n_idx: usize = 0;
            while n_idx < offsets.len()
                invariant
                    self.wf(),
                    width == self.width,
                    height == self.height,
                    y < height,
                    x < width,
                    offsets@ == neighborhood_offsets(self.topology, y % 2 == 0),
                    offsets@.len() == stencil_size(self.topology),
                    n_idx <= offsets@.len(),
                    idx < width * height,
                    y == idx / width,
                    x == idx % width,
                    *s1 == self.pool@[self.grid@[idx as int] as int],
                    chances_valid(self.game),
                    forall|i: int|
                        0 <= i < offsets@.len() ==> {
                            let o = #[trigger] offsets@[i];
                            &&& -1 <= o.0 <= 1
                            &&& -1 <= o.1 <= 1
                        },
                    bound == self.game.iterations * max_abs_payoff(self.game.payoffs),
                    0 <= bound,
                    stencil_size(self.topology) * bound <= i32::MAX,
                    -(n_idx * bound) <= cell_score <= n_idx * bound,
                    hs.len() == n_idx,
                    cell_score == summed_first_totals(self.game.payoffs, hs),
                    forall|k: int|
                        0 <= k < hs.len() ==> possible_match(
                            self.game,
                            &*self.pool@[self.grid@[idx as int] as int],
                            &*self.pool@[self.grid@[neighbour_of(
                                width as int,
                                height as int,
                                idx as int,
                                offsets@[k],
                            )] as int],
                            #[trigger] hs[k],
                        ),
                decreases offsets@.len() - n_idx,
            {
                let (dy, dx) = offsets[n_idx];
                let nidx = neighbour_index(y, x, dy, dx, width, height);
                let s2 = &self.pool[self.grid[nidx]];
                let match_seed = neighbour_match_seed(base_seed, step_id, idx, n_idx);
                let (sc1, _, history) = self.game.play(&**s1, &**s2, match_seed);
                proof {
                    let z = stencil_size(self.topology);
                    assert((n_idx + 1) * bound <= z * bound) by (nonlinear_arith)
                        requires
                            n_idx + 1 <= z,
                            bound >= 0,
                    ;
                    assert((n_idx + 1) * bound == n_idx * bound + bound) by (nonlinear_arith);
                }
                cell_score = cell_score + sc1;
                proof {
                    let before = hs;
                    hs = hs.push(history@);
                    assert(hs.drop_last() =~= before);
                    assert(*s2 == self.pool@[self.grid@[neighbour_of(width as int, height as int, idx as int, offsets@[n_idx as int])] as int]);
                }
                n_idx = n_idx + 1;
            }
            proof {
                assert(stencil_of(self.topology, width as int, idx as int) == offsets@);
                assert(cell_score_of(
                    self.game,
                    self.pool@,
                    self.grid@,
                    width as int,
                    height as int,
                    self.topology,
                    idx as int,
                    cell_score,
                ));
            }
            scores.push(cell_score);
            idx = idx + 1;
        }
        scores
    }

    /// The update pass: every cell takes the strategy that `adopted` names
    /// for the given scores.
    pub fn adopt_best_neighbours(&mut self, scores: &Vec<i32>)
        requires
            old(self).wf(),
            scores@.len() == old(self).spec_width() * old(self).spec_height(),
        ensures
            final(self).wf(),
            final(self).spec_width() == old(self).spec_width(),
            final(self).spec_height() == old(self).spec_height(),
            final(self).spec_pool_len() == old(self).spec_pool_len(),
            final(self).spec_pool() == old(self).spec_pool(),
            final(self).spec_game() == old(self).spec_game(),
            final(self).spec_topology() == old(self).spec_topology(),
            final(self).spec_step_count() == old(self).spec_step_count(),
            forall|idx: int|
                0 <= idx < final(self).spec_grid().len() ==> #[trigger] final(self).spec_grid()[idx]
                    == adopted(
                    old(self).spec_grid(),
                    scores@,
                    old(self).spec_width() as int,
                    old(self).spec_height() as int,
                    old(self).spec_topology(),
                    idx,
                ),
    {
        let width = self.width;
        let height = self.height;
        let total = width * height;
        let mut new_grid: Vec<usize> = Vec::new();
        let mut idx: usize = 0;
        while idx < total
            invariant
                self.wf(),
                total == width * height,
                width == self.width,
                height == self.height,
                scores@.len() == total,
                idx <= total,
                new_grid@.len() == idx,
                forall|k: int| 0 <= k < new_grid@.len() ==> new_grid@[k] < self.pool@.len(),
                forall|k: int|
                    0 <= k < new_grid@.len() ==> #[trigger] new_grid@[k] == adopted(
                        self.grid@,
                        scores@,
                        width as int,
                        height as int,
                        self.topology,
                        k,
                    ),
            decreases total - idx,
        {
            proof {
                lemma_cell_coords(idx as int, width as int, height as int);
            }
            let y = idx / width;
            let x = idx % width;
            let mut best_score = scores[idx];
            let mut best_idx = self.cell(y, x);
            proof {
                assert(y * width + x == idx) by {
                    vstd::arithmetic::div_mod::lemma_fundamental_div_mod(idx as int, width as int);
                    assert(y * width == width * y) by (nonlinear_arith);
                }
            }
            let offsets = self.topology.offsets(y % 2 == 0);
            proof {
                law_stencil_shapes(self.topology, y % 2 == 0);
            }
            let mut n_idx: usize = 0;
            while n_idx < offsets.len()
                invariant
                    self.wf(),
                    width == self.width,
                    height == self.height,
                    scores@.len() == width * height,
                    idx < width * height,
                    y == idx / width,
                    x == idx % width,
                    y < height,
                    x < width,
                    offsets@ == neighborhood_offsets(self.topology, y % 2 == 0),
                    n_idx <= offsets@.len(),
                    forall|i: int|
                        0 <= i < offsets@.len() ==> {
                            let o = #[trigger] offsets@[i];
                            &&& -1 <= o.0 <= 1
                            &&& -1 <= o.1 <= 1
                        },
                    best_idx < self.pool@.len(),
                    (best_score as int, best_idx) == adopt_scan(
                        self.grid@,
                        scores@,
                        width as int,
                        height as int,
                        self.topology,
                        idx as int,
                        n_idx as nat,
                    ),
                decreases offsets@.len() - n_idx,
            {
                let (dy, dx) = offsets[n_idx];
                let nidx = neighbour_index(y, x, dy, dx, width, height);
                if scores[nidx] > best_score {
                    best_score = scores[nidx];
                    best_idx = self.grid[nidx];
                }
                n_idx = n_idx + 1;
            }
            new_grid.push(best_idx);
            idx = idx + 1;
        }
        self.grid = new_grid;
    }

    /// The cells of the grid counted by the name of their strategy: each
    /// name once, the counts adding up to the number of cells.
    pub fn get_population_counts(&self) -> (counts: Vec<(String, usize)>)
        requires
            self.wf(),
        ensures
            names_distinct(counts@),
            total_count(counts@) == self.spec_width() * self.spec_height(),
            exists|names: Seq<String>|
                {
                    &&& names.len() == self.spec_width() * self.spec_height()
                    &&& forall|k: int|
                        0 <= k < names.len() && self.spec_pool()[self.spec_grid()[k] as int].names_itself()
                            ==> (#[trigger] names[k])@ == self.spec_pool()[self.spec_grid()[k] as int].spec_name()
                    &&& is_census(counts@, names)
                },
    {
        let mut names: Vec<String> = Vec::new();
        let mut i: usize = 0;
        while i < self.grid.len()
            invariant
                self.wf(),
                i <= self.grid@.len(),
                names@.len() == i,
                forall|k: int|
                    0 <= k < i && self.pool@[self.grid@[k] as int].names_itself() ==> (#[trigger] names@[k])@
                        == self.pool@[self.grid@[k] as int].spec_name(),
            decreases self.grid@.len() - i,
        {
            let strategy = &self.pool[self.grid[i]];
            names.push(String::from_str(strategy.name()));
            i = i + 1;
        }
        let counts = tally(&names);
        proof {
            assert(forall|k: int|
                0 <= k < names@.len() && self.pool@[self.grid@[k] as int].names_itself() ==> (#[trigger] names@[k])@
                    == self.pool@[self.grid@[k] as int].spec_name());
        }
        counts
    }

    /// One generation: the score pass, then the update pass.
    pub fn step(&mut self)
        requires
            old(self).wf(),
            stencil_size(old(self).spec_topology()) * old(self).spec_game().iterations * max_abs_payoff(
                old(self).spec_game().payoffs,
            ) <= i32::MAX,
            chances_valid(old(self).spec_game()),
        ensures
            final(self).wf(),
            final(self).spec_width() == old(self).spec_width(),
            final(self).spec_height() == old(self).spec_height(),
            final(self).spec_pool_len() == old(self).spec_pool_len(),
            final(self).spec_pool() == old(self).spec_pool(),
            final(self).spec_game() == old(self).spec_game(),
            final(self).spec_topology() == old(self).spec_topology(),
            final(self).spec_step_count() == old(self).spec_step_count().wrapping_add(1),
            exists|scores: Seq<i32>|
                scores.len() == old(self).spec_width() * old(self).spec_height() && (forall|idx: int|
                    0 <= idx < scores.len() ==> cell_score_of(
                        old(self).spec_game(),
                        old(self).spec_pool(),
                        old(self).spec_grid(),
                        old(self).spec_width() as int,
                        old(self).spec_height() as int,
                        old(self).spec_topology(),
                        idx,
                        #[trigger] scores[idx],
                    )) && forall|idx: int|
                    0 <= idx < final(self).spec_grid().len() ==> #[trigger] final(self).spec_grid()[idx]
                        == adopted(
                        old(self).spec_grid(),
                        scores,
                        old(self).spec_width() as int,
                        old(self).spec_height() as int,
                        old(self).spec_topology(),
                        idx,
                    ),
    {
        let ghost before = *self;
        let scores = self.score_cells();
        assert(before.spec_grid() == self.spec_grid());
        self.adopt_best_neighbours(&scores);
        let ghost mid = *self;
        self.step_count = self.step_count.wrapping_add(1);
        proof {
            let w = scores@;
            assert(w.len() == before.spec_width() * before.spec_height());
            assert(mid.spec_grid() == self.spec_grid());
            assert(forall|idx: int|
                0 <= idx < mid.spec_grid().len() ==> #[trigger] mid.spec_grid()[idx] == adopted(
                    before.spec_grid(),
                    w,
                    before.spec_width() as int,
                    before.spec_height() as int,
                    before.spec_topology(),
                    idx,
                ));
            assert(w.len() == before.spec_width() * before.spec_height() && (forall|idx: int|
                0 <= idx < w.len() ==> cell_score_of(
                    before.spec_game(),
                    before.spec_pool(),
                    before.spec_grid(),
                    before.spec_width() as int,
                    before.spec_height() as int,
                    before.spec_topology(),
                    idx,
                    #[trigger] w[idx],
                )) && forall|idx: int|
                0 <= idx < self.spec_grid().len() ==> #[trigger] self.spec_grid()[idx] == adopted(
                    before.spec_grid(),
                    w,
                    before.spec_width() as int,
                    before.spec_height() as int,
                    before.spec_topology(),
                    idx,
                ));
        }
    }
}

} // verus!

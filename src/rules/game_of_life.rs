use crate::automaton::{derefs, is_grid, is_rect, neighborhood, neighbors, Automaton, Rule};
use crate::rng::UniformRng;
use vstd::prelude::*;

verus! {

/// Number of cells equal to 1 in `s`.
pub open spec fn count_live(s: Seq<u8>) -> nat
    decreases s.len(),
{
    if s.len() == 0 {
        0
    } else {
        count_live(s.drop_last()) + (if s.last() == 1 {
            1nat
        } else {
            0nat
        })
    }
}

/// The next value of cell `(i, j)` under Conway's rule: a live cell stays alive with two
/// or three live neighbors, a dead cell becomes alive with exactly three.
pub open spec fn life_cell(v: Seq<Vec<u8>>, i: int, j: int) -> u8 {
    let c = count_live(neighborhood(v, i, j, 1));
    if v[i]@[j] == 1 {
        if c == 2 || c == 3 {
            1
        } else {
            0
        }
    } else if c == 3 {
        1
    } else {
        0
    }
}

/// `next` is the Game of Life successor of `v`.
pub open spec fn life_successor(v: Seq<Vec<u8>>, next: Seq<Vec<u8>>) -> bool {
    &&& next.len() == v.len()
    &&& forall|i: int| 0 <= i < v.len() ==> (#[trigger] next[i]@).len() == v[0]@.len()
    &&& forall|i: int, j: int|
        0 <= i < v.len() && 0 <= j < v[0]@.len() ==> #[trigger] next[i]@[j] == life_cell(v, i, j)
}

/// A fresh grid: cells are 0 or 1, and those on the border are 0.
pub open spec fn life_initial(n: int, m: int, g: Seq<Vec<u8>>) -> bool {
    forall|i: int, j: int|
        0 <= i < n && 0 <= j < m ==> {
            &&& #[trigger] g[i]@[j] <= 1
            &&& (i == 0 || j == 0 || i == n - 1 || j == m - 1) ==> g[i]@[j] == 0
        }
}

/// Conway's Game of Life on cells 0 (dead) and 1 (alive), without wraparound.
pub struct GameOfLife;

/// Counts the live cells among the neighbors of `(i, j)`.
fn live_neighbours(v: &Vec<Vec<u8>>, i: usize, j: usize) -> (r: u64)
    requires
        is_rect(v@),
    ensures
        r as nat == count_live(neighborhood(v@, i as int, j as int, 1)),
{
    let nbs = neighbors(i, j, v, 1);
    let ghost s = derefs(nbs@);
    let mut count: u64 = 0;
    let mut t: usize = 0;
    while t < nbs.len()
        invariant
            s == derefs(nbs@),
            t <= nbs@.len(),
            count as nat == count_live(s.take(t as int)),
            count <= t,
        decreases nbs@.len() - t,
    {
        assert(s.take(t + 1).drop_last() =~= s.take(t as int));
        if *nbs[t] == 1 {
            count = count + 1;
        }
        t = t + 1;
    }
    assert(s.take(t as int) =~= s);
    count
}

/// One step of the Game of Life on a rectangular grid.
pub fn life_step(v: &Vec<Vec<u8>>) -> (r: Vec<Vec<u8>>)
    requires
        is_rect(v@),
    ensures
        life_successor(v@, r@),
{
    let n = v.len();
    let mut next: Vec<Vec<u8>> = Vec::new();
    if n == 0 {
        return next;
    }
    let m = v[0].len();
    let mut i: usize = 0;
    while i < n
        invariant
            n == v@.len(),
            m == v@[0]@.len(),
            is_rect(v@),
            i <= n,
            next@.len() == i,
            forall|a: int| 0 <= a < i ==> (#[trigger] next@[a]@).len() == m,
            forall|a: int, b: int|
                0 <= a < i && 0 <= b < m ==> #[trigger] next@[a]@[b] == life_cell(v@, a, b),
        decreases n - i,
    {
        let mut row: Vec<u8> = Vec::new();
        let mut j: usize = 0;
        while j < m
            invariant
                n == v@.len(),
                m == v@[0]@.len(),
                is_rect(v@),
                i < n,
                j <= m,
                row@.len() == j,
                forall|b: int| 0 <= b < j ==> #[trigger] row@[b] == life_cell(v@, i as int, b),
            decreases m - j,
        {
            let c = live_neighbours(v, i, j);
            assert(v@[i as int]@.len() == m);
            let alive = v[i][j] == 1;
            let cell: u8 = if alive {
                if c == 2 || c == 3 {
                    1
                } else {
                    0
                }
            } else if c == 3 {
                1
            } else {
                0
            };
            row.push(cell);
            j = j + 1;
        }
        next.push(row);
        i = i + 1;
    }
    next
}

/// The start value of a cell off the border from a draw in `0..100`: alive for a draw
/// below 2, that is with probability 2%.
pub fn seed_cell(draw: i64) -> (r: u8)
    ensures
        r == (if draw < 2 {
            1u8
        } else {
            0u8
        }),
{
    if draw < 2 {
        1
    } else {
        0
    }
}

impl Rule<u8, ()> for GameOfLife {
    open spec fn inv(&self, grid: Seq<Vec<u8>>, global: ()) -> bool {
        true
    }

    open spec fn initial(&self, n: usize, m: usize, grid: Seq<Vec<u8>>, global: ()) -> bool {
        life_initial(n as int, m as int, grid)
    }

    open spec fn successor(&self, grid: Seq<Vec<u8>>, global: (), next: Seq<Vec<u8>>, next_global: ()) -> bool {
        life_successor(grid, next)
    }

    /// An `n` by `m` grid of dead cells, where each cell off the border is alive
    /// with probability 2%.
    fn init(&self, n: usize, m: usize) -> (r: (Vec<Vec<u8>>, ()))
        ensures
            is_grid(r.0@, n as nat, m as nat),
    {
        let mut rng = UniformRng::new();
        let mut grid: Vec<Vec<u8>> = Vec::new();
        let mut i: usize = 0;
        while i < n
            invariant
                i <= n,
                is_grid(grid@, i as nat, m as nat),
                forall|a: int, b: int|
                    0 <= a < i && 0 <= b < m ==> {
                        &&& #[trigger] grid@[a]@[b] <= 1
                        &&& (a == 0 || b == 0 || a == n - 1 || b == m - 1) ==> grid@[a]@[b] == 0
                    },
            decreases n - i,
        {
            let mut row: Vec<u8> = Vec::new();
            let mut j: usize = 0;
            while j < m
                invariant
                    i < n,
                    j <= m,
                    row@.len() == j,
                    forall|b: int|
                        0 <= b < j ==> {
                            &&& #[trigger] row@[b] <= 1
                            &&& (i == 0 || b == 0 || i == n - 1 || b == m - 1) ==> row@[b] == 0
                        },
                decreases m - j,
            {
                let inner = 0 < i && i + 1 < n && 0 < j && j + 1 < m;
                let cell: u8 = if inner {
                    seed_cell(rng.sample(0, 100))
                } else {
                    0
                };
                row.push(cell);
                j = j + 1;
            }
            grid.push(row);
            i = i + 1;
        }
        (grid, ())
    }

    fn next(&self, grid: &mut Vec<Vec<u8>>, global: &mut ())
    {
        let next = life_step(grid);
        proof {
            if next@.len() > 0 {
                assert(next@[0]@.len() == old(grid)@[0]@.len());
            }
        }
        *grid = next;
    }
}

/// An automaton running the Game of Life on a random `n` by `m` grid.
pub fn new_gol_automaton(n: usize, m: usize) -> (r: Automaton<u8, (), GameOfLife>)
    ensures
        is_grid(r.grid(), n as nat, m as nat),
        r.wf(),
        life_initial(n as int, m as int, r.grid()),
{
    Automaton::new(n, m, GameOfLife)
}

} // verus!

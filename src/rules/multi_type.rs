use crate::automaton::{
    derefs, is_grid, is_rect, is_window_cell, lemma_neighbors_in_bounds, neighborhood, neighbors,
    shape_of, Automaton, Rule,
};
use crate::image::ToNum;
use crate::rng::UniformRng;
use vstd::prelude::*;

verus! {

/// Number of cell types.
pub const N_TYPES: usize = 10;

/// A cell of one of `N_TYPES` types, with a score that decides its fights.
#[derive(Clone, Copy)]
pub struct Cell {
    pub t: u64,
    pub score: i64,
}

impl ToNum for Cell {
    open spec fn num(&self) -> u64 {
        self.t
    }

    fn to_num(&self) -> (r: u64) {
        self.t
    }
}

/// A known type, and a score far enough from the limits of `i64` to add noise to.
pub open spec fn valid_cell(c: Cell) -> bool {
    c.t < N_TYPES && i64::MIN + 5 <= c.score <= i64::MAX - 5
}

/// A cell as it is first drawn: a known type and a score in `-5..5`.
pub open spec fn fresh_cell(c: Cell) -> bool {
    c.t < N_TYPES && -5 <= c.score < 5
}

/// Every cell of the grid is as first drawn.
pub open spec fn fresh_cells(g: Seq<Vec<Cell>>) -> bool {
    forall|i: int, j: int| 0 <= i < g.len() && 0 <= j < g[i]@.len() ==> fresh_cell(#[trigger] g[i]@[j])
}

/// Lower bound of the best scores before any cell is seen.
pub const NO_SCORE: i64 = -1073741824;

/// `best` is `NO_SCORE` or the noisy score of some cell of type `t` in `x`.
pub open spec fn best_of_type(x: Seq<Vec<Cell>>, t: int, best: i64) -> bool {
    best == NO_SCORE || exists|i: int, j: int|
        0 <= i < x.len() && 0 <= j < x[i]@.len() && (#[trigger] x[i]@[j]).t == t && x[i]@[j].score
            - 5 <= best < x[i]@[j].score + 5
}

/// Every cell of the grid is valid.
pub open spec fn valid_cells(g: Seq<Vec<Cell>>) -> bool {
    forall|i: int, j: int| 0 <= i < g.len() && 0 <= j < g[i]@.len() ==> valid_cell(#[trigger] g[i]@[j])
}

/// Number of cells of type `t` in `s`.
pub open spec fn count_type(s: Seq<Cell>, t: u64) -> nat
    decreases s.len(),
{
    if s.len() == 0 {
        0
    } else {
        count_type(s.drop_last(), t) + (if s.last().t == t {
            1nat
        } else {
            0nat
        })
    }
}

/// `t` is a type that no other type outnumbers in `s`.
pub open spec fn is_most_common(s: Seq<Cell>, t: u64) -> bool {
    &&& t < N_TYPES
    &&& forall|u: u64| u < N_TYPES ==> #[trigger] count_type(s, u) <= count_type(s, t)
}

/// One step of the competition: each cell keeps its score, and keeps its type or takes
/// a most common type among the cells within distance 4 of it.
pub open spec fn multi_successor(v: Seq<Vec<Cell>>, next: Seq<Vec<Cell>>) -> bool {
    &&& next.len() == v.len()
    &&& forall|i: int| 0 <= i < v.len() ==> (#[trigger] next[i]@).len() == v[i]@.len()
    &&& forall|i: int, j: int|
        0 <= i < v.len() && 0 <= j < v[i]@.len() ==> {
            &&& (#[trigger] next[i]@[j]).score == v[i]@[j].score
            &&& (next[i]@[j].t == v[i]@[j].t || is_most_common(
                neighborhood(v, i, j, 4),
                next[i]@[j].t,
            ))
        }
}

impl Cell {
    /// The cell's score with noise in `-5..5` added.
    pub fn compute_score(&self, rng: &mut UniformRng) -> (r: i64)
        requires
            valid_cell(*self),
        ensures
            self.score - 5 <= r < self.score + 5,
    {
        self.score + rng.sample(-5, 5)
    }
}

/// The outcome of a cell's fight against the most common type `max_c` around it: the
/// type takes the cell when its best score beats the cell's own, and the cell keeps its
/// score either way.
pub fn contest(cell: Cell, max_c: usize, best: i64, own: i64) -> (r: Cell)
    requires
        max_c < N_TYPES,
    ensures
        r == (if best > own {
            Cell { t: max_c as u64, score: cell.score }
        } else {
            cell
        }),
{
    if best > own {
        Cell { t: max_c as u64, score: cell.score }
    } else {
        cell
    }
}

proof fn lemma_neighbors_valid(v: Seq<Vec<Cell>>, x: int, y: int, k: int)
    requires
        is_rect(v),
        valid_cells(v),
        0 <= x,
        0 <= y,
        0 <= k,
    ensures
        forall|t: int|
            0 <= t < neighborhood(v, x, y, k).len() ==> valid_cell(
                #[trigger] neighborhood(v, x, y, k)[t],
            ),
{
    lemma_neighbors_in_bounds(v, x, y, k);
    let nb = neighborhood(v, x, y, k);
    assert forall|t: int| 0 <= t < nb.len() implies valid_cell(#[trigger] nb[t]) by {
        assert(is_window_cell(v, x, y, k, nb[t]));
        let (a, b) = choose|a: int, b: int|
            0 <= a < v.len() && 0 <= b < v[0]@.len() && x - k <= a <= x + k && y - k <= b <= y + k
                && !(a == x && b == y) && nb[t] == #[trigger] v[a]@[b];
        assert(v[a]@.len() == v[0]@.len());
        assert(valid_cell(v[a]@[b]));
    }
}

/// The number of cells of each type among `nbs`.
pub fn type_counts(nbs: &Vec<&Cell>) -> (r: Vec<u64>)
    requires
        forall|t: int| 0 <= t < nbs@.len() ==> valid_cell(#[trigger] derefs(nbs@)[t]),
    ensures
        r@.len() == N_TYPES,
        forall|u: u64| u < N_TYPES ==> #[trigger] r@[u as int] == count_type(derefs(nbs@), u),
{
    let ghost s = derefs(nbs@);
    let mut count: Vec<u64> = vec![0; N_TYPES];
    let mut t: usize = 0;
    while t < nbs.len()
        invariant
            s == derefs(nbs@),
            forall|q: int| 0 <= q < nbs@.len() ==> valid_cell(#[trigger] s[q]),
            t <= nbs@.len(),
            count@.len() == N_TYPES,
            forall|u: u64| u < N_TYPES ==> #[trigger] count@[u as int] == count_type(s.take(t as int), u),
            forall|u: int| 0 <= u < N_TYPES ==> #[trigger] count@[u] <= t,
        decreases nbs@.len() - t,
    {
        assert(s.take(t + 1).drop_last() =~= s.take(t as int));
        assert(valid_cell(s[t as int]));
        let ty = nbs[t].t as usize;
        let c = count[ty];
        count.set(ty, c + 1);
        t = t + 1;
    }
    assert(s.take(t as int) =~= s);
    count
}

/// A type with the largest count; among equal counts a random one may win.
fn most_common(count: &Vec<u64>, rng: &mut UniformRng) -> (r: usize)
    requires
        count@.len() == N_TYPES,
    ensures
        r < N_TYPES,
        forall|u: int| 0 <= u < N_TYPES ==> #[trigger] count@[u] <= count@[r as int],
{
    let mut max: u64 = 0;
    let mut max_c: usize = 0;
    let mut i: usize = 0;
    while i < N_TYPES
        invariant
            count@.len() == N_TYPES,
            i <= N_TYPES,
            max_c < N_TYPES,
            i > 0 ==> max == count@[max_c as int],
            i == 0 ==> max_c == 0 && max == 0,
            forall|u: int| 0 <= u < i ==> #[trigger] count@[u] <= max,
        decreases N_TYPES - i,
    {
        if count[i] > max {
            max = count[i];
            max_c = i;
        } else if count[i] == max {
            if rng.sample(0, 2) == 0 {
                max_c = i;
            }
        }
        i = i + 1;
    }
    max_c
}

/// The largest noisy score of the cells of each type.
fn max_scores(x: &Vec<Vec<Cell>>, rng: &mut UniformRng) -> (r: Vec<i64>)
    requires
        valid_cells(x@),
    ensures
        r@.len() == N_TYPES,
        forall|t: int| 0 <= t < N_TYPES ==> best_of_type(x@, t, #[trigger] r@[t]),
{
    let mut max_score: Vec<i64> = vec![NO_SCORE; N_TYPES];
    let mut i: usize = 0;
    while i < x.len()
        invariant
            valid_cells(x@),
            i <= x@.len(),
            max_score@.len() == N_TYPES,
            forall|t: int| 0 <= t < N_TYPES ==> best_of_type(x@, t, #[trigger] max_score@[t]),
        decreases x@.len() - i,
    {
        let mut j: usize = 0;
        while j < x[i].len()
            invariant
                valid_cells(x@),
                i < x@.len(),
                j <= x@[i as int]@.len(),
                max_score@.len() == N_TYPES,
                forall|t: int| 0 <= t < N_TYPES ==> best_of_type(x@, t, #[trigger] max_score@[t]),
            decreases x@[i as int]@.len() - j,
        {
            assert(valid_cell(x@[i as int]@[j as int]));
            let t = x[i][j].t as usize;
            let score = x[i][j].compute_score(rng);
            if score > max_score[t] {
                max_score.set(t, score);
                assert forall|u: int| 0 <= u < N_TYPES implies best_of_type(
                    x@,
                    u,
                    #[trigger] max_score@[u],
                ) by {
                    if u == t {
                        assert(x@[i as int]@[j as int].t == u);
                    }
                }
            }
            j = j + 1;
        }
        i = i + 1;
    }
    max_score
}

/// One step of the competition between types: each cell may be taken over by a most
/// common type around it when that type's best noisy score beats its own.
pub fn elem_next_fn(x: &mut Vec<Vec<Cell>>, _g: &mut ())
    requires
        is_rect(old(x)@),
        valid_cells(old(x)@),
    ensures
        is_rect(final(x)@),
        valid_cells(final(x)@),
        shape_of(final(x)@) == shape_of(old(x)@),
        multi_successor(old(x)@, final(x)@),
{
    let n = x.len();
    if n == 0 {
        return ;
    }
    let m = x[0].len();
    let mut rng = UniformRng::new();
    let max_score = max_scores(x, &mut rng);
    let mut next: Vec<Vec<Cell>> = Vec::new();
    let mut i: usize = 0;
    while i < n
        invariant
            n == x@.len(),
            m == x@[0]@.len(),
            is_rect(x@),
            valid_cells(x@),
            max_score@.len() == N_TYPES,
            i <= n,
            next@.len() == i,
            forall|a: int| 0 <= a < i ==> (#[trigger] next@[a]@).len() == m,
            forall|a: int, b: int|
                0 <= a < i && 0 <= b < m ==> {
                    &&& valid_cell(#[trigger] next@[a]@[b])
                    &&& next@[a]@[b].score == x@[a]@[b].score
                    &&& (next@[a]@[b].t == x@[a]@[b].t || is_most_common(
                        neighborhood(x@, a, b, 4),
                        next@[a]@[b].t,
                    ))
                },
        decreases n - i,
    {
        let mut row: Vec<Cell> = Vec::new();
        let mut j: usize = 0;
        assert(x@[i as int]@.len() == m);
        while j < m
            invariant
                n == x@.len(),
                m == x@[0]@.len(),
                x@[i as int]@.len() == m,
                is_rect(x@),
                valid_cells(x@),
                max_score@.len() == N_TYPES,
                i < n,
                j <= m,
                row@.len() == j,
                forall|b: int|
                    0 <= b < j ==> {
                        &&& valid_cell(#[trigger] row@[b])
                        &&& row@[b].score == x@[i as int]@[b].score
                        &&& (row@[b].t == x@[i as int]@[b].t || is_most_common(
                            neighborhood(x@, i as int, b, 4),
                            row@[b].t,
                        ))
                    },
            decreases m - j,
        {
            let nbs = neighbors(i, j, x, 4);
            proof {
                lemma_neighbors_valid(x@, i as int, j as int, 4);
            }
            let count = type_counts(&nbs);
            let max_c = most_common(&count, &mut rng);
            let cell = x[i][j];
            assert(valid_cell(cell));
            let own = cell.compute_score(&mut rng);
            let fought = contest(cell, max_c, max_score[max_c], own);
            row.push(fought);
            if max_score[max_c] > own {
                proof {
                    let s = neighborhood(x@, i as int, j as int, 4);
                    assert forall|u: u64| u < N_TYPES implies #[trigger] count_type(s, u)
                        <= count_type(s, max_c as u64) by {
                        assert(count@[u as int] == count_type(s, u));
                        assert(count@[max_c as int] == count_type(s, max_c as u64));
                    }
                }
            }
            j = j + 1;
        }
        next.push(row);
        i = i + 1;
    }
    proof {
        assert forall|a: int| 0 <= a < next@.len() implies (#[trigger] next@[a]@).len()
            == next@[0]@.len() by {}
        assert forall|a: int, b: int| 0 <= a < next@.len() && 0 <= b < next@[a]@.len() implies valid_cell(
            #[trigger] next@[a]@[b],
        ) by {}
    }
    *x = next;
}

/// A grid of cells of random type and score.
fn init_random(n: usize, m: usize) -> (r: Vec<Vec<Cell>>)
    ensures
        is_grid(r@, n as nat, m as nat),
        fresh_cells(r@),
        valid_cells(r@),
{
    let mut rng = UniformRng::new();
    let mut grid: Vec<Vec<Cell>> = Vec::new();
    let mut i: usize = 0;
    while i < n
        invariant
            i <= n,
            is_grid(grid@, i as nat, m as nat),
            fresh_cells(grid@),
            valid_cells(grid@),
        decreases n - i,
    {
        let mut row: Vec<Cell> = Vec::new();
        let mut j: usize = 0;
        while j < m
            invariant
                j <= m,
                row@.len() == j,
                forall|b: int| 0 <= b < j ==> fresh_cell(#[trigger] row@[b]),
                forall|b: int| 0 <= b < j ==> valid_cell(#[trigger] row@[b]),
            decreases m - j,
        {
            let t = rng.sample(0, 10);
            let score = rng.sample(-5, 5);
            row.push(Cell { t: t as u64, score });
            j = j + 1;
        }
        grid.push(row);
        i = i + 1;
    }
    grid
}

/// Competing cell types, each cell fighting the most common type around it.
pub struct MultiType;

impl Rule<Cell, ()> for MultiType {
    open spec fn inv(&self, grid: Seq<Vec<Cell>>, global: ()) -> bool {
        valid_cells(grid)
    }

    open spec fn initial(&self, n: usize, m: usize, grid: Seq<Vec<Cell>>, global: ()) -> bool {
        fresh_cells(grid)
    }

    open spec fn successor(
        &self,
        grid: Seq<Vec<Cell>>,
        global: (),
        next: Seq<Vec<Cell>>,
        next_global: (),
    ) -> bool {
        multi_successor(grid, next)
    }

    fn init(&self, n: usize, m: usize) -> (r: (Vec<Vec<Cell>>, ())) {
        (init_random(n, m), ())
    }

    fn next(&self, grid: &mut Vec<Vec<Cell>>, global: &mut ()) {
        elem_next_fn(grid, global);
    }
}

/// The competition on a random `n` by `m` grid.
pub fn new_multi_type_automaton(n: usize, m: usize) -> (r: Automaton<Cell, (), MultiType>)
    ensures
        is_grid(r.grid(), n as nat, m as nat),
        r.wf(),
        fresh_cells(r.grid()),
{
    Automaton::new(n, m, MultiType)
}

} // verus!

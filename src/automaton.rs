use vstd::prelude::*;

verus! {

/// `g` has exactly `n` rows, each of length `m`.
pub open spec fn is_grid<T>(g: Seq<Vec<T>>, n: nat, m: nat) -> bool {
    &&& g.len() == n
    &&& forall|i: int| 0 <= i < n ==> (#[trigger] g[i]@).len() == m
}

/// Every row of `g` has the length of the first one.
pub open spec fn is_rect<T>(g: Seq<Vec<T>>) -> bool {
    forall|i: int| 0 <= i < g.len() ==> (#[trigger] g[i]@).len() == g[0]@.len()
}

/// (height, width) of a grid; `(0, 0)` when it has no rows.
pub open spec fn shape_of<T>(g: Seq<Vec<T>>) -> (nat, nat) {
    if g.len() == 0 {
        (0, 0)
    } else {
        (g.len(), g[0]@.len())
    }
}

/// A transition rule: how a grid and its global state are created and advanced.
pub trait Rule<T, S> {
    /// What every grid and global state of this rule satisfies.
    spec fn inv(&self, grid: Seq<Vec<T>>, global: S) -> bool;

    /// What an initial `n` by `m` grid and global state of this rule look like.
    spec fn initial(&self, n: usize, m: usize, grid: Seq<Vec<T>>, global: S) -> bool;

    /// How one step of this rule relates grid and global state before and after.
    spec fn successor(&self, grid: Seq<Vec<T>>, global: S, next: Seq<Vec<T>>, next_global: S) -> bool;

    /// Creates the initial `n` by `m` grid and global state.
    fn init(&self, n: usize, m: usize) -> (r: (Vec<Vec<T>>, S))
        ensures
            is_grid(r.0@, n as nat, m as nat),
            self.initial(n, m, r.0@, r.1),
            self.inv(r.0@, r.1),
    ;

    /// Advances grid and global state by one step, keeping the grid's dimensions.
    fn next(&self, grid: &mut Vec<Vec<T>>, global: &mut S)
        requires
            is_rect(old(grid)@),
            self.inv(old(grid)@, *old(global)),
        ensures
            is_rect(final(grid)@),
            self.inv(final(grid)@, *final(global)),
            shape_of(final(grid)@) == shape_of(old(grid)@),
            self.successor(old(grid)@, *old(global), final(grid)@, *final(global)),
    ;
}

/// A cellular automaton: an `n` by `m` grid of cells of type `T`, a global state
/// of type `S`, and the rule that creates and advances them.
pub struct Automaton<T, S, R: Rule<T, S>> {
    grid: Vec<Vec<T>>,
    global_state: S,
    rule: R,
}

impl<T, S, R: Rule<T, S>> Automaton<T, S, R> {
    pub closed spec fn grid(&self) -> Seq<Vec<T>> {
        self.grid@
    }

    pub closed spec fn global(&self) -> S {
        self.global_state
    }

    pub closed spec fn rule(&self) -> R {
        self.rule
    }

    /// All rows have the same length, and the rule's invariant holds.
    pub open spec fn wf(&self) -> bool {
        is_rect(self.grid()) && self.rule().inv(self.grid(), self.global())
    }

    /// Creates an automaton whose grid and global state come from `rule.init(n, m)`.
    pub fn new(n: usize, m: usize, rule: R) -> (r: Self)
        ensures
            is_grid(r.grid(), n as nat, m as nat),
            r.wf(),
            r.rule() == rule,
            rule.initial(n, m, r.grid(), r.global()),
    {
        let (grid, global_state) = rule.init(n, m);
        Automaton { grid, global_state, rule }
    }

    /// (height, width) of the grid.
    pub fn size(&self) -> (r: (usize, usize))
        ensures
            (r.0 as nat, r.1 as nat) == shape_of(self.grid()),
    {
        let n = self.grid.len();
        if n == 0 {
            return (0, 0);
        }
        (n, self.grid[0].len())
    }

    /// The current grid and global state.
    pub fn state(&self) -> (r: (&Vec<Vec<T>>, &S))
        ensures
            r.0@ == self.grid(),
            *r.1 == self.global(),
    {
        (&self.grid, &self.global_state)
    }

    /// Advances the automaton by one step of its rule.
    pub fn next(&mut self)
        requires
            old(self).wf(),
        ensures
            final(self).wf(),
            shape_of(final(self).grid()) == shape_of(old(self).grid()),
            final(self).rule() == old(self).rule(),
            old(self).rule().successor(
                old(self).grid(),
                old(self).global(),
                final(self).grid(),
                final(self).global(),
            ),
    {
        self.rule.next(&mut self.grid, &mut self.global_state);
    }

    /// Replaces grid and global state with a fresh `n` by `m` instance from the rule.
    pub fn reset(&mut self, n: usize, m: usize)
        ensures
            is_grid(final(self).grid(), n as nat, m as nat),
            final(self).wf(),
            final(self).rule() == old(self).rule(),
            old(self).rule().initial(n, m, final(self).grid(), final(self).global()),
    {
        let (grid, global_state) = self.rule.init(n, m);
        self.grid = grid;
        self.global_state = global_state;
    }
}

/// The cells of row `a` from column `lo` up to, not including, `hi`, leaving out `(x, y)`.
pub open spec fn row_cells<T>(row: Seq<T>, a: int, lo: int, hi: int, x: int, y: int) -> Seq<T>
    decreases hi - lo,
{
    if hi <= lo {
        Seq::empty()
    } else {
        let prev = row_cells(row, a, lo, hi - 1, x, y);
        if a == x && hi - 1 == y {
            prev
        } else {
            prev.push(row[hi - 1])
        }
    }
}

/// The cells of rows `lo_a..hi_a` and columns `lo_b..hi_b`, row by row, leaving out `(x, y)`.
pub open spec fn block_cells<T>(
    v: Seq<Vec<T>>,
    lo_a: int,
    hi_a: int,
    lo_b: int,
    hi_b: int,
    x: int,
    y: int,
) -> Seq<T>
    decreases hi_a - lo_a,
{
    if hi_a <= lo_a {
        Seq::empty()
    } else {
        block_cells(v, lo_a, hi_a - 1, lo_b, hi_b, x, y) + row_cells(
            v[hi_a - 1]@,
            hi_a - 1,
            lo_b,
            hi_b,
            x,
            y,
        )
    }
}

/// Lower end of the window of half-width `k` around `x`, clipped at 0.
pub open spec fn clip_lo(x: int, k: int) -> int {
    if x >= k {
        x - k
    } else {
        0
    }
}

/// Upper end (exclusive) of the window of half-width `k` around `x`, clipped at `n`.
pub open spec fn clip_hi(x: int, k: int, n: int) -> int {
    if x + k + 1 <= n {
        x + k + 1
    } else {
        n
    }
}

/// The cells of the square of half-width `k` around `(x, y)`, clipped to the grid,
/// row by row, without the center.
pub open spec fn neighborhood<T>(v: Seq<Vec<T>>, x: int, y: int, k: int) -> Seq<T> {
    if v.len() == 0 {
        Seq::empty()
    } else {
        block_cells(v, clip_lo(x, k), clip_hi(x, k, v.len() as int), clip_lo(y, k), clip_hi(y, k, v[0]@.len() as int), x, y)
    }
}

/// The values that a sequence of references points to.
pub open spec fn derefs<T>(s: Seq<&T>) -> Seq<T> {
    s.map_values(|t: &T| *t)
}

/// Returns the cells of the `(2k+1)` square centered at `(x, y)`, without the center,
/// clipped at the edges of the grid.
pub fn neighbors<T>(x: usize, y: usize, v: &Vec<Vec<T>>, k: usize) -> (r: Vec<&T>)
    requires
        is_rect(v@),
    ensures
        derefs(r@) == neighborhood(v@, x as int, y as int, k as int),
{
    let mut result: Vec<&T> = Vec::new();
    if v.len() == 0 {
        assert(derefs(result@) =~= Seq::empty());
        return result;
    }
    let n = v.len();
    let m = v[0].len();
    let lo_a: usize = if x >= k { x - k } else { 0 };
    let hi_a: usize = if x < n && k < n - x { x + k + 1 } else { n };
    let lo_b: usize = if y >= k { y - k } else { 0 };
    let hi_b: usize = if y < m && k < m - y { y + k + 1 } else { m };
    let mut a: usize = lo_a;
    assert(derefs(result@) =~= Seq::empty());
    while a < hi_a
        invariant
            is_rect(v@),
            n == v@.len(),
            m == v@[0]@.len(),
            hi_a <= n,
            hi_b <= m,
            lo_a <= a,
            a <= hi_a || a == lo_a,
            lo_a == clip_lo(x as int, k as int),
            hi_a == clip_hi(x as int, k as int, n as int),
            lo_b == clip_lo(y as int, k as int),
            hi_b == clip_hi(y as int, k as int, m as int),
            derefs(result@) == block_cells(v@, lo_a as int, a as int, lo_b as int, hi_b as int, x as int, y as int),
        decreases hi_a - a,
    {
        let mut b: usize = lo_b;
        while b < hi_b
            invariant
                is_rect(v@),
                n == v@.len(),
                m == v@[0]@.len(),
                lo_a <= a < hi_a <= n,
                hi_b <= m,
                lo_b <= b,
                b <= hi_b || b == lo_b,
                derefs(result@) == block_cells(v@, lo_a as int, a as int, lo_b as int, hi_b as int, x as int, y as int)
                    + row_cells(v@[a as int]@, a as int, lo_b as int, b as int, x as int, y as int),
            decreases hi_b - b,
        {
            let ghost prev = result@;
            if !(a == x && b == y) {
                assert(v@[a as int]@.len() == m);
                result.push(&v[a][b]);
                assert(derefs(result@) =~= derefs(prev).push(v@[a as int]@[b as int]));
            }
            proof {
                let blk = block_cells(v@, lo_a as int, a as int, lo_b as int, hi_b as int, x as int, y as int);
                let row = row_cells(v@[a as int]@, a as int, lo_b as int, b as int, x as int, y as int);
                assert(row_cells(v@[a as int]@, a as int, lo_b as int, b + 1, x as int, y as int)
                    == if a == x && b == y { row } else { row.push(v@[a as int]@[b as int]) });
                if !(a == x && b == y) {
                    assert(blk + row.push(v@[a as int]@[b as int]) =~= (blk + row).push(v@[a as int]@[b as int]));
                }
            }
            b = b + 1;
        }
        assert(row_cells(v@[a as int]@, a as int, lo_b as int, b as int, x as int, y as int)
            == row_cells(v@[a as int]@, a as int, lo_b as int, hi_b as int, x as int, y as int));
        assert(block_cells(v@, lo_a as int, a + 1, lo_b as int, hi_b as int, x as int, y as int)
            == block_cells(v@, lo_a as int, a as int, lo_b as int, hi_b as int, x as int, y as int)
                + row_cells(v@[a as int]@, a as int, lo_b as int, hi_b as int, x as int, y as int));
        a = a + 1;
    }
    assert(block_cells(v@, lo_a as int, a as int, lo_b as int, hi_b as int, x as int, y as int)
        == block_cells(v@, lo_a as int, hi_a as int, lo_b as int, hi_b as int, x as int, y as int));
    result
}

proof fn lemma_row_cells_len<T>(row: Seq<T>, a: int, lo: int, hi: int, x: int, y: int)
    requires
        lo <= hi,
    ensures
        row_cells(row, a, lo, hi, x, y).len() == (hi - lo) - (if a == x && lo <= y < hi {
            1int
        } else {
            0int
        }),
    decreases hi - lo,
{
    if hi > lo {
        lemma_row_cells_len(row, a, lo, hi - 1, x, y);
    }
}

proof fn lemma_row_cells_from<T>(row: Seq<T>, a: int, lo: int, hi: int, x: int, y: int)
    requires
        0 <= lo,
        hi <= row.len(),
    ensures
        forall|t: int|
            0 <= t < row_cells(row, a, lo, hi, x, y).len() ==> exists|b: int|
                lo <= b < hi && !(a == x && b == y) && #[trigger] row_cells(row, a, lo, hi, x, y)[t]
                    == row[b],
    decreases hi - lo,
{
    if hi > lo {
        lemma_row_cells_from(row, a, lo, hi - 1, x, y);
        let prev = row_cells(row, a, lo, hi - 1, x, y);
        let cur = row_cells(row, a, lo, hi, x, y);
        assert forall|t: int| 0 <= t < cur.len() implies exists|b: int|
            lo <= b < hi && !(a == x && b == y) && #[trigger] cur[t] == row[b] by {
            if t < prev.len() {
                assert(cur[t] == prev[t]);
                let b = choose|b: int| lo <= b < hi - 1 && !(a == x && b == y) && prev[t] == row[b];
                assert(lo <= b < hi && !(a == x && b == y) && cur[t] == row[b]);
            } else {
                assert(cur[t] == row[hi - 1]);
            }
        }
    }
}

proof fn lemma_block_cells_from<T>(
    v: Seq<Vec<T>>,
    lo_a: int,
    hi_a: int,
    lo_b: int,
    hi_b: int,
    x: int,
    y: int,
)
    requires
        is_rect(v),
        0 <= lo_a,
        hi_a <= v.len(),
        0 <= lo_b,
        v.len() > 0 ==> hi_b <= v[0]@.len(),
    ensures
        forall|t: int|
            0 <= t < block_cells(v, lo_a, hi_a, lo_b, hi_b, x, y).len() ==> exists|a: int, b: int|
                lo_a <= a < hi_a && lo_b <= b < hi_b && !(a == x && b == y)
                    && #[trigger] block_cells(v, lo_a, hi_a, lo_b, hi_b, x, y)[t] == v[a]@[b],
    decreases hi_a - lo_a,
{
    if hi_a > lo_a {
        lemma_block_cells_from(v, lo_a, hi_a - 1, lo_b, hi_b, x, y);
        let prev = block_cells(v, lo_a, hi_a - 1, lo_b, hi_b, x, y);
        let row = row_cells(v[hi_a - 1]@, hi_a - 1, lo_b, hi_b, x, y);
        let cur = block_cells(v, lo_a, hi_a, lo_b, hi_b, x, y);
        lemma_row_cells_from(v[hi_a - 1]@, hi_a - 1, lo_b, hi_b, x, y);
        assert forall|t: int| 0 <= t < cur.len() implies exists|a: int, b: int|
            lo_a <= a < hi_a && lo_b <= b < hi_b && !(a == x && b == y) && #[trigger] cur[t]
                == v[a]@[b] by {
            if t < prev.len() {
                assert(cur[t] == prev[t]);
                let (a, b) = choose|a: int, b: int|
                    lo_a <= a < hi_a - 1 && lo_b <= b < hi_b && !(a == x && b == y) && prev[t]
                        == v[a]@[b];
                assert(lo_a <= a < hi_a && lo_b <= b < hi_b && !(a == x && b == y) && cur[t]
                    == v[a]@[b]);
            } else {
                assert(cur[t] == row[t - prev.len()]);
                let b = choose|b: int|
                    lo_b <= b < hi_b && !(hi_a - 1 == x && b == y) && row[t - prev.len()]
                        == #[trigger] v[hi_a - 1]@[b];
                assert(lo_a <= hi_a - 1 < hi_a && lo_b <= b < hi_b && !(hi_a - 1 == x && b == y)
                    && cur[t] == v[hi_a - 1]@[b]);
            }
        }
    }
}

/// `c` is a cell of `v` other than `(x, y)`, within `k` rows and `k` columns of it.
pub open spec fn is_window_cell<T>(v: Seq<Vec<T>>, x: int, y: int, k: int, c: T) -> bool {
    exists|a: int, b: int|
        #![trigger v[a]@[b]]
        0 <= a < v.len() && 0 <= b < v[0]@.len() && x - k <= a <= x + k && y - k <= b <= y + k
            && !(a == x && b == y) && c == v[a]@[b]
}

/// Every cell that `neighbors` returns is a cell of the grid, other than the center,
/// whose row and column lie within `k` of the center's.
pub proof fn lemma_neighbors_in_bounds<T>(v: Seq<Vec<T>>, x: int, y: int, k: int)
    requires
        is_rect(v),
        0 <= x,
        0 <= y,
        0 <= k,
    ensures
        forall|t: int|
            0 <= t < neighborhood(v, x, y, k).len() ==> is_window_cell(
                v,
                x,
                y,
                k,
                #[trigger] neighborhood(v, x, y, k)[t],
            ),
{
    if v.len() > 0 {
        let lo_a = clip_lo(x, k);
        let hi_a = clip_hi(x, k, v.len() as int);
        let lo_b = clip_lo(y, k);
        let hi_b = clip_hi(y, k, v[0]@.len() as int);
        lemma_block_cells_from(v, lo_a, hi_a, lo_b, hi_b, x, y);
        let nb = neighborhood(v, x, y, k);
        assert forall|t: int| 0 <= t < nb.len() implies is_window_cell(v, x, y, k, #[trigger] nb[t]) by {
            let (a, b) = choose|a: int, b: int|
                lo_a <= a < hi_a && lo_b <= b < hi_b && !(a == x && b == y) && nb[t] == #[trigger] v[a]@[b];
            assert(0 <= a < v.len() && 0 <= b < v[0]@.len() && x - k <= a <= x + k && y - k <= b
                <= y + k && !(a == x && b == y) && nb[t] == v[a]@[b]);
        }
    }
}

/// For `k = 1`, a cell that touches no edge of the grid has exactly 8 neighbors.
pub proof fn lemma_interior_has_eight_neighbors<T>(v: Seq<Vec<T>>, x: int, y: int)
    requires
        is_rect(v),
        1 <= x,
        x + 1 < v.len(),
        1 <= y,
        y + 1 < v[0]@.len(),
    ensures
        neighborhood(v, x, y, 1).len() == 8,
{
    let lo_b = y - 1;
    let hi_b = y + 2;
    lemma_row_cells_len(v[x - 1]@, x - 1, lo_b, hi_b, x, y);
    lemma_row_cells_len(v[x]@, x, lo_b, hi_b, x, y);
    lemma_row_cells_len(v[x + 1]@, x + 1, lo_b, hi_b, x, y);
    assert(block_cells(v, x - 1, x - 1, lo_b, hi_b, x, y).len() == 0);
    assert(block_cells(v, x - 1, x, lo_b, hi_b, x, y).len() == 3);
    assert(block_cells(v, x - 1, x + 1, lo_b, hi_b, x, y).len() == 5);
    assert(block_cells(v, x - 1, x + 2, lo_b, hi_b, x, y).len() == 8);
}

/// A grid of `n` rows of length `m` has size `(n, m)`, unless it has no rows.
pub proof fn lemma_constructed_size<T>(g: Seq<Vec<T>>, n: nat, m: nat)
    requires
        is_grid(g, n, m),
        n > 0 || m == 0,
    ensures
        shape_of(g) == (n, m),
        is_rect(g),
{
}

} // verus!

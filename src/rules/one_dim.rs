use crate::automaton::{is_grid, is_rect, shape_of, Automaton, Rule};
use crate::rng::UniformRng;
use vstd::prelude::*;

verus! {

/// Rule 30 on the neighborhood `(x, y, z)` of a cell in the row above.
pub open spec fn rule30_of(x: u8, y: u8, z: u8) -> u64 {
    if (x == 1 && y == 0 && z == 0) || (x == 0 && y == 1 && z == 1) || (x == 0 && y == 1 && z
        == 0) || (x == 0 && y == 0 && z == 1) {
        1
    } else {
        0
    }
}

/// Rule 184 on the neighborhood `(x, y, z)` of a cell in the row above.
pub open spec fn rule184_of(x: u8, y: u8, z: u8) -> u64 {
    if (x == 1 && y == 1 && z == 1) || (x == 1 && y == 0 && z == 1) || (x == 1 && y == 0 && z
        == 0) || (x == 0 && y == 1 && z == 1) {
        1
    } else {
        0
    }
}

pub fn rule30(x: u8, y: u8, z: u8) -> (r: u64)
    ensures
        r == rule30_of(x, y, z),
{
    if (x == 1 && y == 0 && z == 0) || (x == 0 && y == 1 && z == 1) || (x == 0 && y == 1 && z
        == 0) || (x == 0 && y == 0 && z == 1) {
        1
    } else {
        0
    }
}

pub fn rule184(x: u8, y: u8, z: u8) -> (r: u64)
    ensures
        r == rule184_of(x, y, z),
{
    if (x == 1 && y == 1 && z == 1) || (x == 1 && y == 0 && z == 1) || (x == 1 && y == 0 && z
        == 0) || (x == 0 && y == 1 && z == 1) {
        1
    } else {
        0
    }
}

/// An elementary (one-dimensional, three-cell) rule.
#[derive(Clone, Copy, PartialEq, Eq, Structural)]
pub enum ElementaryRule {
    Rule30,
    Rule184,
}

/// The value that `rule` gives to the neighborhood `(x, y, z)`.
pub open spec fn elementary_of(rule: ElementaryRule, x: u8, y: u8, z: u8) -> u64 {
    match rule {
        ElementaryRule::Rule30 => rule30_of(x, y, z),
        ElementaryRule::Rule184 => rule184_of(x, y, z),
    }
}

impl ElementaryRule {
    pub fn apply(&self, x: u8, y: u8, z: u8) -> (r: u64)
        ensures
            r == elementary_of(*self, x, y, z),
    {
        match self {
            ElementaryRule::Rule30 => rule30(x, y, z),
            ElementaryRule::Rule184 => rule184(x, y, z),
        }
    }
}

/// The new value of cell `j` of row `i`, given the grid before the step: interior cells
/// whose neighborhood in row `i - 1` gives 1 become 1, the others keep their value.
pub open spec fn grown_cell(v: Seq<Vec<u8>>, rule: ElementaryRule, i: int, j: int) -> u8 {
    let m = v[i]@.len();
    if 1 <= j && j + 1 < m && elementary_of(rule, v[i - 1]@[j - 1], v[i - 1]@[j], v[i - 1]@[j + 1])
        == 1 {
        1
    } else {
        v[i]@[j]
    }
}

/// One step of drawing: with `g.0` between 1 and the height, row `g.0` is derived from
/// the row above and the index moves on; otherwise nothing changes.
pub open spec fn grow_step(
    v: Seq<Vec<u8>>,
    g: (usize, ElementaryRule),
    nv: Seq<Vec<u8>>,
    ng: (usize, ElementaryRule),
) -> bool {
    let i = g.0 as int;
    if i == 0 || i >= v.len() {
        nv == v && ng == g
    } else {
        &&& ng.0 == g.0 + 1
        &&& ng.1 == g.1
        &&& nv.len() == v.len()
        &&& forall|a: int| 0 <= a < v.len() && a != i ==> #[trigger] nv[a] == v[a]
        &&& nv[i]@.len() == v[i]@.len()
        &&& forall|j: int| 0 <= j < v[i]@.len() ==> #[trigger] nv[i]@[j] == grown_cell(v, g.1, i, j)
    }
}

/// What a fresh grid of `rule` holds: for rule 30 one live cell in the middle of the first
/// row, for rule 184 a first row of 0s and 1s ending in 0; all other rows are 0.
pub open spec fn one_dim_initial(rule: ElementaryRule, n: int, m: int, g: Seq<Vec<u8>>) -> bool {
    match rule {
        ElementaryRule::Rule30 => forall|i: int, j: int|
            0 <= i < n && 0 <= j < m ==> #[trigger] g[i]@[j] == (if i == 0 && j == m / 2 {
                1u8
            } else {
                0u8
            }),
        ElementaryRule::Rule184 => {
            &&& forall|i: int, j: int|
                0 <= i < n && 0 <= j < m && (i > 0 || j + 1 == m) ==> #[trigger] g[i]@[j] == 0
            &&& forall|j: int| 0 <= j < m && n > 0 ==> #[trigger] g[0]@[j] <= 1
        },
    }
}

/// Grows the picture of a one-dimensional automaton by one row: row `global.0` is
/// derived from the row above, then the row index moves on. Once the index reaches the
/// height of the grid, nothing changes any more.
pub fn rule_next_fn(x: &mut Vec<Vec<u8>>, y: &mut (usize, ElementaryRule))
    requires
        is_rect(old(x)@),
    ensures
        is_rect(final(x)@),
        shape_of(final(x)@) == shape_of(old(x)@),
        final(x)@.len() == old(x)@.len(),
        grow_step(old(x)@, *old(y), final(x)@, *final(y)),
{
    let n = x.len();
    let i = y.0;
    let rule = y.1;
    if i == 0 || i >= n {
        return ;
    }
    let m = x[0].len();
    assert(x@[i as int]@.len() == m && x@[i - 1]@.len() == m);
    let mut row: Vec<u8> = Vec::new();
    let mut j: usize = 0;
    while j < m
        invariant
            n == x@.len(),
            0 < i < n,
            m == x@[0]@.len(),
            is_rect(x@),
            x@[i as int]@.len() == m,
            x@[i - 1]@.len() == m,
            j <= m,
            row@.len() == j,
            forall|b: int| 0 <= b < j ==> #[trigger] row@[b] == grown_cell(x@, rule, i as int, b),
        decreases m - j,
    {
        let mut cell = x[i][j];
        if 1 <= j && j + 1 < m {
            if rule.apply(x[i - 1][j - 1], x[i - 1][j], x[i - 1][j + 1]) == 1 {
                cell = 1;
            }
        }
        row.push(cell);
        j = j + 1;
    }
    x.set(i, row);
    y.0 = i + 1;
    assert(is_rect(x@)) by {
        assert forall|a: int| 0 <= a < x@.len() implies (#[trigger] x@[a]@).len() == x@[0]@.len() by {
            assert(old(x)@[a]@.len() == m);
        }
    }
}

/// A grid whose first row has a single live cell in the middle.
pub fn init_middle(n: usize, m: usize) -> (r: Vec<Vec<u8>>)
    ensures
        is_grid(r@, n as nat, m as nat),
        forall|i: int, j: int|
            0 <= i < n && 0 <= j < m ==> #[trigger] r@[i]@[j] == (if i == 0 && j == m as int / 2 {
                1u8
            } else {
                0u8
            }),
{
    let mut grid: Vec<Vec<u8>> = Vec::new();
    let mut i: usize = 0;
    while i < n
        invariant
            i <= n,
            is_grid(grid@, i as nat, m as nat),
            forall|a: int, b: int|
                0 <= a < i && 0 <= b < m ==> #[trigger] grid@[a]@[b] == (if a == 0 && b == m as int
                    / 2 {
                    1u8
                } else {
                    0u8
                }),
        decreases n - i,
    {
        let mut row: Vec<u8> = Vec::new();
        let mut j: usize = 0;
        while j < m
            invariant
                j <= m,
                row@.len() == j,
                forall|b: int|
                    0 <= b < j ==> #[trigger] row@[b] == (if i == 0 && b == m as int / 2 {
                        1u8
                    } else {
                        0u8
                    }),
            decreases m - j,
        {
            let cell: u8 = if i == 0 && j == m / 2 {
                1
            } else {
                0
            };
            row.push(cell);
            j = j + 1;
        }
        grid.push(row);
        i = i + 1;
    }
    grid
}

/// A grid of dead cells whose first row, but its last cell, is alive at random with
/// probability one half.
pub fn init_random(n: usize, m: usize) -> (r: Vec<Vec<u8>>)
    ensures
        is_grid(r@, n as nat, m as nat),
        forall|i: int, j: int|
            0 <= i < n && 0 <= j < m && (i > 0 || j + 1 == m) ==> #[trigger] r@[i]@[j] == 0,
        forall|j: int| 0 <= j < m && n > 0 ==> #[trigger] r@[0]@[j] <= 1,
{
    let mut rng = UniformRng::new();
    let mut grid: Vec<Vec<u8>> = Vec::new();
    let mut i: usize = 0;
    while i < n
        invariant
            i <= n,
            is_grid(grid@, i as nat, m as nat),
            forall|a: int, b: int|
                0 <= a < i && 0 <= b < m && (a > 0 || b + 1 == m) ==> #[trigger] grid@[a]@[b] == 0,
            forall|b: int| 0 <= b < m && i > 0 ==> #[trigger] grid@[0]@[b] <= 1,
        decreases n - i,
    {
        let mut row: Vec<u8> = Vec::new();
        let mut j: usize = 0;
        while j < m
            invariant
                j <= m,
                row@.len() == j,
                forall|b: int| 0 <= b < j && (i > 0 || b + 1 == m) ==> #[trigger] row@[b] == 0,
                forall|b: int| 0 <= b < j ==> #[trigger] row@[b] <= 1,
            decreases m - j,
        {
            let mut cell: u8 = 0;
            if i == 0 && j + 1 < m && rng.sample(0, 2) == 1 {
                cell = 1;
            }
            row.push(cell);
            j = j + 1;
        }
        grid.push(row);
        i = i + 1;
    }
    grid
}

/// A one-dimensional automaton drawn row by row, top to bottom.
pub struct OneDim {
    pub rule: ElementaryRule,
}

impl Rule<u8, (usize, ElementaryRule)> for OneDim {
    open spec fn inv(&self, grid: Seq<Vec<u8>>, global: (usize, ElementaryRule)) -> bool {
        true
    }

    open spec fn initial(
        &self,
        n: usize,
        m: usize,
        grid: Seq<Vec<u8>>,
        global: (usize, ElementaryRule),
    ) -> bool {
        one_dim_initial(self.rule, n as int, m as int, grid) && global == (1usize, self.rule)
    }

    open spec fn successor(
        &self,
        grid: Seq<Vec<u8>>,
        global: (usize, ElementaryRule),
        next: Seq<Vec<u8>>,
        next_global: (usize, ElementaryRule),
    ) -> bool {
        grow_step(grid, global, next, next_global)
    }

    /// Rule 30 starts from a single live cell, rule 184 from a random first row; the
    /// next row to draw is row 1.
    fn init(&self, n: usize, m: usize) -> (r: (Vec<Vec<u8>>, (usize, ElementaryRule))) {
        let grid = match self.rule {
            ElementaryRule::Rule30 => init_middle(n, m),
            ElementaryRule::Rule184 => init_random(n, m),
        };
        (grid, (1, self.rule))
    }

    fn next(&self, grid: &mut Vec<Vec<u8>>, global: &mut (usize, ElementaryRule)) {
        rule_next_fn(grid, global);
    }
}

/// Rule 30 on an `n` by `2n + 1` grid, starting from one live cell in the middle.
pub fn new_rule30_automaton(n: usize) -> (r: Automaton<u8, (usize, ElementaryRule), OneDim>)
    requires
        n < usize::MAX / 2,
    ensures
        is_grid(r.grid(), n as nat, (2 * n + 1) as nat),
        r.wf(),
        r.rule() == (OneDim { rule: ElementaryRule::Rule30 }),
        r.global() == (1usize, ElementaryRule::Rule30),
        one_dim_initial(ElementaryRule::Rule30, n as int, 2 * n + 1, r.grid()),
{
    Automaton::new(n, 2 * n + 1, OneDim { rule: ElementaryRule::Rule30 })
}

/// Rule 184 on an `n` by `m` grid, starting from a random first row.
pub fn new_rule184_automaton(n: usize, m: usize) -> (r: Automaton<
    u8,
    (usize, ElementaryRule),
    OneDim,
>)
    ensures
        is_grid(r.grid(), n as nat, m as nat),
        r.wf(),
        r.rule() == (OneDim { rule: ElementaryRule::Rule184 }),
        r.global() == (1usize, ElementaryRule::Rule184),
        one_dim_initial(ElementaryRule::Rule184, n as int, m as int, r.grid()),
{
    Automaton::new(n, m, OneDim { rule: ElementaryRule::Rule184 })
}

/// Once the row index has reached the height of the grid, a step changes neither the
/// grid nor the global state.
pub proof fn lemma_growth_stops_at_bottom(
    v: Seq<Vec<u8>>,
    g: (usize, ElementaryRule),
    nv: Seq<Vec<u8>>,
    ng: (usize, ElementaryRule),
)
    requires
        grow_step(v, g, nv, ng),
        g.0 >= v.len(),
    ensures
        nv == v,
        ng == g,
{
}

/// The row index after `k` steps from row 1 of a grid of height `n`.
pub open spec fn row_after(n: int, k: int) -> int {
    if 1 + k <= n {
        1 + k
    } else {
        n
    }
}

/// Along any run of steps that starts at row 1 of a grid with at least one row, the row
/// index after `k` steps is `row_after(height, k)`; from step `height - 1` on, every further
/// step leaves grid and global state as they are.
pub proof fn lemma_run_stops_at_bottom(
    grids: Seq<Seq<Vec<u8>>>,
    globals: Seq<(usize, ElementaryRule)>,
)
    requires
        grids.len() == globals.len(),
        grids.len() > 0,
        grids[0].len() > 0,
        globals[0].0 == 1,
        forall|k: int|
            0 <= k < grids.len() - 1 ==> #[trigger] grow_step(
                grids[k],
                globals[k],
                grids[k + 1],
                globals[k + 1],
            ),
    ensures
        forall|k: int| 0 <= k < grids.len() ==> (#[trigger] grids[k]).len() == grids[0].len(),
        forall|k: int|
            0 <= k < grids.len() ==> #[trigger] globals[k].0 == row_after(grids[0].len() as int, k),
        forall|k: int|
            grids[0].len() - 1 <= k < grids.len() - 1 ==> #[trigger] grids[k + 1] == grids[k]
                && globals[k + 1] == globals[k],
    decreases grids.len(),
{
    if grids.len() > 1 {
        let g2 = grids.drop_last();
        let s2 = globals.drop_last();
        assert forall|k: int| 0 <= k < g2.len() - 1 implies #[trigger] grow_step(
            g2[k],
            s2[k],
            g2[k + 1],
            s2[k + 1],
        ) by {
            assert(grow_step(grids[k], globals[k], grids[k + 1], globals[k + 1]));
        }
        lemma_run_stops_at_bottom(g2, s2);
        let last = grids.len() - 1;
        assert(g2[last - 1] == grids[last - 1]);
        assert(s2[last - 1] == globals[last - 1]);
        let p = last - 1;
        assert(s2[p].0 == globals[p].0);
        assert(grow_step(grids[p], globals[p], grids[p + 1], globals[p + 1]));
        assert(grids[p].len() == grids[0].len());
        assert(globals[last - 1].0 == row_after(grids[0].len() as int, last - 1));
        assert forall|k: int| 0 <= k < grids.len() implies #[trigger] globals[k].0 == row_after(
            grids[0].len() as int,
            k,
        ) && grids[k].len() == grids[0].len() by {
            if k < last {
                assert(g2[k] == grids[k] && s2[k] == globals[k]);
                assert(s2[k].0 == globals[k].0);
            } else {
                assert(s2[p].0 == globals[p].0);
                assert(g2[p].len() == grids[p].len());
            }
        }
        assert forall|k: int| 0 <= k < grids.len() implies (#[trigger] grids[k]).len()
            == grids[0].len() by {
            assert(globals[k].0 == row_after(grids[0].len() as int, k));
        }
        assert forall|k: int| grids[0].len() - 1 <= k < grids.len() - 1 implies #[trigger] grids[k
            + 1] == grids[k] && globals[k + 1] == globals[k] by {
            assert(grow_step(grids[k], globals[k], grids[k + 1], globals[k + 1]));
        }
    }
}

} // verus!

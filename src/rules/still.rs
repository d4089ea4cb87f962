use crate::automaton::{is_grid, Rule};
use vstd::prelude::*;

verus! {

/// Every cell of `g` holds `c`.
pub open spec fn filled_with(g: Seq<Vec<u8>>, c: u8) -> bool {
    forall|i: int, j: int| 0 <= i < g.len() && 0 <= j < g[i]@.len() ==> #[trigger] g[i]@[j] == c
}

/// A grid filled with one category that never changes.
pub struct Still {
    pub category: u8,
}

impl Rule<u8, ()> for Still {
    open spec fn inv(&self, grid: Seq<Vec<u8>>, global: ()) -> bool {
        true
    }

    open spec fn initial(&self, n: usize, m: usize, grid: Seq<Vec<u8>>, global: ()) -> bool {
        filled_with(grid, self.category)
    }

    open spec fn successor(&self, grid: Seq<Vec<u8>>, global: (), next: Seq<Vec<u8>>, next_global: ()) -> bool {
        next == grid
    }

    fn init(&self, n: usize, m: usize) -> (r: (Vec<Vec<u8>>, ())) {
        let mut grid: Vec<Vec<u8>> = Vec::new();
        let mut i: usize = 0;
        while i < n
            invariant
                i <= n,
                is_grid(grid@, i as nat, m as nat),
                filled_with(grid@, self.category),
            decreases n - i,
        {
            let mut row: Vec<u8> = Vec::new();
            let mut j: usize = 0;
            while j < m
                invariant
                    j <= m,
                    row@.len() == j,
                    forall|b: int| 0 <= b < j ==> #[trigger] row@[b] == self.category,
                decreases m - j,
            {
                row.push(self.category);
                j = j + 1;
            }
            grid.push(row);
            i = i + 1;
        }
        (grid, ())
    }

    fn next(&self, grid: &mut Vec<Vec<u8>>, global: &mut ()) {
    }
}

} // verus!

use cellular_automaton::automaton::{neighbors, Automaton};
use cellular_automaton::rules::still::Still;
use cellular_automaton::rules::game_of_life::new_gol_automaton;

fn numbered(n: usize, m: usize) -> Vec<Vec<u32>> {
    (0..n).map(|i| (0..m).map(|j| (i * m + j) as u32).collect()).collect()
}

fn values(r: Vec<&u32>) -> Vec<u32> {
    r.into_iter().copied().collect()
}

#[test]
fn construct_gives_requested_size() {
    let a = new_gol_automaton(12, 7);
    assert_eq!(a.size(), (12, 7));
    let (grid, _) = a.state();
    assert_eq!(grid.len(), 12);
    assert!(grid.iter().all(|row| row.len() == 7));
}

#[test]
fn gol_initial_border_is_dead() {
    let a = new_gol_automaton(20, 30);
    let (grid, _) = a.state();
    for i in 0..20 {
        for j in 0..30 {
            assert!(grid[i][j] <= 1);
            if i == 0 || j == 0 || i == 19 || j == 29 {
                assert_eq!(grid[i][j], 0);
            }
        }
    }
}

#[test]
fn zero_rows_give_zero_size() {
    let a = new_gol_automaton(0, 5);
    assert_eq!(a.size(), (0, 0));
    let b = new_gol_automaton(4, 0);
    assert_eq!(b.size(), (4, 0));
}

#[test]
fn next_keeps_dimensions_and_reset_changes_them() {
    let mut a = new_gol_automaton(9, 11);
    for _ in 0..5 {
        a.next();
        assert_eq!(a.size(), (9, 11));
    }
    a.reset(3, 4);
    assert_eq!(a.size(), (3, 4));
}

#[test]
fn still_rule_fills_and_keeps() {
    let mut a = Automaton::new(10, 10, Still { category: 7 });
    assert_eq!(a.size(), (10, 10));
    a.next();
    a.next();
    let (grid, _) = a.state();
    assert!(grid.iter().all(|row| row.iter().all(|c| *c == 7)));
    a.reset(2, 3);
    assert_eq!(a.size(), (2, 3));
    assert_eq!(*a.state().0, vec![vec![7u8; 3]; 2]);
}

#[test]
fn interior_cell_has_eight_neighbors() {
    let v = numbered(3, 3);
    assert_eq!(values(neighbors(1, 1, &v, 1)), vec![0, 1, 2, 3, 5, 6, 7, 8]);
}

#[test]
fn corner_and_edge_neighbors_are_clipped() {
    let v = numbered(3, 4);
    assert_eq!(values(neighbors(0, 0, &v, 1)), vec![1, 4, 5]);
    assert_eq!(values(neighbors(2, 3, &v, 1)), vec![6, 7, 10]);
    assert_eq!(values(neighbors(0, 1, &v, 1)), vec![0, 2, 4, 5, 6]);
}

#[test]
fn large_window_covers_whole_grid() {
    let v = numbered(3, 3);
    assert_eq!(values(neighbors(0, 0, &v, 2)), vec![1, 2, 3, 4, 5, 6, 7, 8]);
    assert_eq!(values(neighbors(1, 1, &v, 100)).len(), 8);
    let w = numbered(9, 9);
    assert_eq!(neighbors(4, 4, &w, 4).len(), 80);
}

#[test]
fn neighbors_of_empty_grid_and_zero_window() {
    let v: Vec<Vec<u32>> = Vec::new();
    assert!(neighbors(0, 0, &v, 1).is_empty());
    let w = numbered(3, 3);
    assert!(neighbors(1, 1, &w, 0).is_empty());
}

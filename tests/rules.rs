use cellular_automaton::rules::game_of_life::{life_step, seed_cell};
use cellular_automaton::rules::multi_type::{
    contest, elem_next_fn, new_multi_type_automaton, type_counts, Cell,
};
use cellular_automaton::rules::one_dim::{
    init_middle, new_rule184_automaton, new_rule30_automaton, rule184, rule30, rule_next_fn,
    ElementaryRule,
};

#[test]
fn blinker_turns() {
    let v: Vec<Vec<u8>> = vec![
        vec![0, 0, 0, 0, 0],
        vec![0, 0, 1, 0, 0],
        vec![0, 0, 1, 0, 0],
        vec![0, 0, 1, 0, 0],
        vec![0, 0, 0, 0, 0],
    ];
    let expected: Vec<Vec<u8>> = vec![
        vec![0, 0, 0, 0, 0],
        vec![0, 0, 0, 0, 0],
        vec![0, 1, 1, 1, 0],
        vec![0, 0, 0, 0, 0],
        vec![0, 0, 0, 0, 0],
    ];
    assert_eq!(life_step(&v), expected);
    assert_eq!(life_step(&expected), v);
}

#[test]
fn block_is_still_and_lone_cell_dies() {
    let block: Vec<Vec<u8>> = vec![vec![1, 1, 0], vec![1, 1, 0], vec![0, 0, 0]];
    assert_eq!(life_step(&block), block);
    let lone: Vec<Vec<u8>> = vec![vec![0, 0, 0], vec![0, 1, 0], vec![0, 0, 0]];
    assert_eq!(life_step(&lone), vec![vec![0u8; 3]; 3]);
}

#[test]
fn rule_tables() {
    let mut r30 = Vec::new();
    let mut r184 = Vec::new();
    for k in 0..8u8 {
        let (x, y, z) = ((k >> 2) & 1, (k >> 1) & 1, k & 1);
        r30.push(rule30(x, y, z));
        r184.push(rule184(x, y, z));
        assert_eq!(ElementaryRule::Rule30.apply(x, y, z), rule30(x, y, z));
    }
    assert_eq!(r30, vec![0, 1, 1, 1, 1, 0, 0, 0]);
    assert_eq!(r184, vec![0, 0, 0, 1, 1, 1, 0, 1]);
}

#[test]
fn init_middle_sets_one_cell() {
    let g = init_middle(3, 7);
    assert_eq!(g[0], vec![0, 0, 0, 1, 0, 0, 0]);
    assert_eq!(g[1], vec![0; 7]);
    assert_eq!(g[2], vec![0; 7]);
}

#[test]
fn rule30_grows_row_by_row_then_stops() {
    let mut a = new_rule30_automaton(4);
    assert_eq!(a.size(), (4, 9));
    assert_eq!(a.state().1 .0, 1);
    a.next();
    assert_eq!(a.state().0[1], vec![0, 0, 0, 1, 1, 1, 0, 0, 0]);
    a.next();
    assert_eq!(a.state().0[2], vec![0, 0, 1, 1, 0, 0, 1, 0, 0]);
    a.next();
    assert_eq!(a.state().1 .0, 4);
    let before = a.state().0.clone();
    a.next();
    a.next();
    assert_eq!(*a.state().0, before);
    assert_eq!(a.state().1 .0, 4);
}

#[test]
fn rule_next_fn_leaves_edges_and_other_rows() {
    let mut g: Vec<Vec<u8>> = vec![vec![1, 1, 0, 1], vec![0, 0, 0, 0], vec![1, 0, 0, 1]];
    let mut s = (1usize, ElementaryRule::Rule184);
    rule_next_fn(&mut g, &mut s);
    assert_eq!(g, vec![vec![1, 1, 0, 1], vec![0, 0, 1, 0], vec![1, 0, 0, 1]]);
    assert_eq!(s.0, 2);
    let mut z = (0usize, ElementaryRule::Rule30);
    rule_next_fn(&mut g, &mut z);
    assert_eq!(z.0, 0);
}

#[test]
fn rule184_first_row_is_binary() {
    let a = new_rule184_automaton(5, 8);
    assert_eq!(a.size(), (5, 8));
    let (g, s) = a.state();
    assert!(g[0].iter().all(|c| *c <= 1));
    assert_eq!(g[0][7], 0);
    assert!(g[1..].iter().all(|r| r.iter().all(|c| *c == 0)));
    assert_eq!(s.0, 1);
}

#[test]
fn multi_type_keeps_scores_and_shape() {
    let mut a = new_multi_type_automaton(6, 7);
    let before: Vec<Vec<Cell>> = a.state().0.clone();
    a.next();
    let (after, _) = a.state();
    assert_eq!(a.size(), (6, 7));
    for i in 0..6 {
        for j in 0..7 {
            assert_eq!(after[i][j].score, before[i][j].score);
            assert!(after[i][j].t < 10);
        }
    }
}

#[test]
fn uniform_grid_stays_uniform() {
    let mut g = vec![vec![Cell { t: 3, score: 0 }; 5]; 5];
    elem_next_fn(&mut g, &mut ());
    assert!(g.iter().all(|r| r.iter().all(|c| c.t == 3 && c.score == 0)));
}

#[test]
fn type_counts_per_type() {
    let cells = vec![
        Cell { t: 1, score: 0 },
        Cell { t: 1, score: 2 },
        Cell { t: 4, score: -1 },
        Cell { t: 9, score: 4 },
    ];
    let refs: Vec<&Cell> = cells.iter().collect();
    assert_eq!(type_counts(&refs), vec![0, 2, 0, 0, 1, 0, 0, 0, 0, 1]);
    assert_eq!(type_counts(&Vec::new()), vec![0; 10]);
}

#[test]
fn contest_outcomes() {
    let cell = Cell { t: 2, score: 3 };
    let won = contest(cell, 5, 4, 1);
    assert_eq!((won.t, won.score), (5, 3));
    let kept = contest(cell, 5, 1, 4);
    assert_eq!((kept.t, kept.score), (2, 3));
    let tie = contest(cell, 5, 4, 4);
    assert_eq!((tie.t, tie.score), (2, 3));
}

#[test]
fn seed_cell_threshold() {
    assert_eq!(seed_cell(0), 1);
    assert_eq!(seed_cell(1), 1);
    assert_eq!(seed_cell(2), 0);
    assert_eq!(seed_cell(99), 0);
}

#[test]
fn large_scores_are_kept() {
    let mut g = vec![vec![Cell { t: 6, score: 1_000_000 }; 4]; 3];
    g[1][2] = Cell { t: 1, score: -1_000_000 };
    elem_next_fn(&mut g, &mut ());
    assert_eq!(g[1][2].score, -1_000_000);
    assert_eq!(g[1][2].t, 6);
    assert!(g.iter().flatten().filter(|c| c.score == 1_000_000).all(|c| c.t == 6));
}

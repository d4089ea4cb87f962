use cellular_automaton::rng::UniformRng;
use cellular_automaton::rules::multi_type::Cell;

#[test]
fn samples_stay_in_range_and_vary() {
    let mut rng = UniformRng::new();
    let mut seen = [false; 10];
    for _ in 0..2000 {
        let v = rng.sample(0, 10);
        assert!((0..10).contains(&v));
        seen[v as usize] = true;
    }
    assert!(seen.iter().all(|s| *s));
}

#[test]
fn negative_range_samples() {
    let mut rng = UniformRng::new();
    let mut low = false;
    for _ in 0..500 {
        let v = rng.sample(-5, 5);
        assert!((-5..5).contains(&v));
        if v < 0 {
            low = true;
        }
    }
    assert!(low);
}

#[test]
fn noisy_score_stays_near_score() {
    let mut rng = UniformRng::new();
    let c = Cell { t: 2, score: 4 };
    let mut values = Vec::new();
    for _ in 0..500 {
        let s = c.compute_score(&mut rng);
        assert!((-1..9).contains(&s));
        values.push(s);
    }
    assert!(values.iter().any(|v| *v != values[0]));
}

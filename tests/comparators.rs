use qd_strategies::organism::Named;
use qd_strategies::selection::{Elitism, GreedySelection, MetropolisHastings};

#[test]
fn greedy_prefers_higher_or_equal() {
    let g = GreedySelection {};
    assert!(g.select(5, 3));
    assert!(!g.select(3, 5));
    assert!(g.select(4, 4));
    assert!(g.select(0, 0));
}

#[test]
fn metropolis_equal_scores_always_accepted() {
    let m = MetropolisHastings {};
    for _ in 0..1000 {
        assert!(m.select(5, 5));
    }
}

#[test]
fn metropolis_zero_score_never_accepted() {
    let m = MetropolisHastings {};
    for _ in 0..1000 {
        assert!(!m.select(0, 5));
    }
    assert!(!m.select(0, 0));
}

#[test]
fn metropolis_higher_score_always_accepted() {
    let m = MetropolisHastings {};
    for _ in 0..1000 {
        assert!(m.select(9, 2));
        assert!(m.select(1, 0));
    }
}

#[test]
fn metropolis_half_ratio_frequency() {
    let m = MetropolisHastings {};
    let n = 20000;
    let accepted = (0..n).filter(|_| m.select(1, 2)).count();
    let freq = accepted as f64 / n as f64;
    assert!((freq - 0.5).abs() < 0.03, "frequency {}", freq);
}

#[test]
fn comparator_names() {
    assert_eq!(GreedySelection {}.name(), "Greedy_selection");
    assert_eq!(MetropolisHastings {}.name(), "Metropolis-Hastings");
}

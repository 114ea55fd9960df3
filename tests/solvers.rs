use qd_strategies::config::ProblemBundle;
use qd_strategies::grid_ga::GeneralizedMAPElite;
use qd_strategies::map_elite::MAPElite;
use qd_strategies::organism::Scorer;
use qd_strategies::onemax::{OneMax, OneMaxGenerator, OneMaxMapper, OneMaxMutator, OneMaxScorer, OneMaxValue};
use qd_strategies::problems::{DiscreteHyperparameters, Probability, SpatialMapper};
use qd_strategies::selection::{GreedySelection, MetropolisHastings};
use qd_strategies::simple::SimpleReplacement;
use qd_strategies::simple_adaptive::{AdaptiveOrg, SimpleAdaptive};

type OneMaxBundle =
    ProblemBundle<OneMaxGenerator, OneMax, SpatialMapper, OneMaxScorer, OneMaxMutator, OneMaxMapper, DiscreteHyperparameters>;

fn onemax_config(size: usize, octets: usize) -> OneMaxBundle {
    ProblemBundle {
        random_organism_generator: OneMaxGenerator {},
        problem_instance_generator: OneMax { size },
        constant_hyperparameters: DiscreteHyperparameters { mutation_chance: Probability { num: 1, den: 2 } },
        hyperparameter_mapper: SpatialMapper { number_of_additional_dimensions: 0 },
        scorer: OneMaxScorer {},
        mutator: OneMaxMutator {},
        feature_mapper: OneMaxMapper { number_of_octets: octets },
    }
}

fn snapshot(cells: &Vec<Vec<(u64, qd_strategies::organism::Organism<OneMaxValue>)>>) -> Vec<Vec<(u64, Vec<u8>)>> {
    cells
        .iter()
        .map(|c| c.iter().map(|(k, o)| (*k, o.genotype().values.clone())).collect())
        .collect()
}

#[test]
fn grid_one_dimension_two_hundred_cells() {
    let algo = GeneralizedMAPElite { use_features: false, use_hyperparameter_mapping: false, number_of_spatial_dimensions: 1 };
    let solver = algo.initialize_solver(200, OneMax { size: 4 }, GreedySelection {}, onemax_config(4, 1));
    assert_eq!(solver.shape(), &vec![200]);
    assert_eq!(solver.cells().len(), 200);
    assert!(solver.cells().iter().all(|c| c.len() == 1));
}

#[test]
fn grid_update_changes_at_most_one_cell() {
    let algo = GeneralizedMAPElite { use_features: false, use_hyperparameter_mapping: false, number_of_spatial_dimensions: 1 };
    let mut solver = algo.initialize_solver(200, OneMax { size: 4 }, GreedySelection {}, onemax_config(4, 1));
    for _ in 0..50 {
        let before = snapshot(solver.cells());
        let pop = solver.update();
        let after = snapshot(solver.cells());
        assert_eq!(pop.len(), 200);
        assert_eq!(after.len(), 200);
        let differing = before.iter().zip(after.iter()).filter(|(x, y)| x != y).count();
        assert!(differing <= 1);
        assert!(after.iter().all(|c| c.len() == 1));
    }
}

#[test]
fn grid_two_dimensions_cell_count() {
    let algo = GeneralizedMAPElite { use_features: false, use_hyperparameter_mapping: true, number_of_spatial_dimensions: 2 };
    let mut solver = algo.initialize_solver(2500, OneMax { size: 8 }, MetropolisHastings {}, onemax_config(8, 1));
    assert_eq!(solver.shape(), &vec![50, 50]);
    assert_eq!(solver.cells().len(), 2500);
    for _ in 0..100 {
        let pop = solver.update();
        assert_eq!(pop.len(), 2500);
    }
}

#[test]
fn grid_three_dimensions_uses_exact_root() {
    let algo = GeneralizedMAPElite { use_features: false, use_hyperparameter_mapping: false, number_of_spatial_dimensions: 3 };
    let solver = algo.initialize_solver(1000, OneMax { size: 2 }, GreedySelection {}, onemax_config(2, 1));
    assert_eq!(solver.shape(), &vec![10, 10, 10]);
    assert_eq!(solver.cells().len(), 1000);
}

#[test]
fn grid_with_features_stays_within_bound() {
    let algo = GeneralizedMAPElite { use_features: true, use_hyperparameter_mapping: true, number_of_spatial_dimensions: 1 };
    let mut solver = algo.initialize_solver(2600, OneMax { size: 4 }, GreedySelection {}, onemax_config(4, 1));
    assert_eq!(solver.shape(), &vec![10]);
    let cells = solver.cells().len();
    for _ in 0..2000 {
        let pop = solver.update();
        assert!(!pop.is_empty());
        assert!(pop.len() <= cells * 256);
    }
    for cell in solver.cells() {
        for (k, o) in cell {
            assert_eq!(*k, o.genotype().values[0] as u64);
        }
    }
}

#[test]
fn map_elite_archive_grows_by_niche() {
    let algo = MAPElite { feature_mapper: OneMaxMapper { number_of_octets: 1 } };
    let mut solver = algo.initialize_solver(100, OneMax { size: 3 }, GreedySelection {}, onemax_config(3, 1));
    assert_eq!(solver.niches().len(), 1);
    assert_eq!(solver.niches()[0].0, 0);
    let mut last = 1;
    for _ in 0..3000 {
        let pop = solver.update();
        assert!(!pop.is_empty());
        assert!(pop.len() >= last && pop.len() <= last + 1);
        assert!(pop.len() <= 256);
        last = pop.len();
    }
    let mut keys: Vec<u64> = solver.niches().iter().map(|(k, _)| *k).collect();
    keys.sort();
    keys.dedup();
    assert_eq!(keys.len(), solver.niches().len());
}

#[test]
fn simple_replacement_keeps_size() {
    let mut solver = SimpleReplacement {}.initialize_solver(50, OneMax { size: 4 }, GreedySelection {}, onemax_config(4, 1));
    assert_eq!(solver.organisms().len(), 50);
    for _ in 0..500 {
        assert_eq!(solver.update().len(), 50);
    }
}

#[test]
fn simple_replacement_greedy_never_lowers_best() {
    let mut solver = SimpleReplacement {}.initialize_solver(10, OneMax { size: 4 }, GreedySelection {}, onemax_config(4, 1));
    let problem = OneMax { size: 4 };
    let mut best = 0;
    for _ in 0..300 {
        let pop = solver.update();
        let now = pop.iter().map(|o| OneMaxScorer {}.score(o.genotype(), &problem)).max().unwrap();
        assert!(now >= best);
        best = now;
    }
}

#[test]
fn simple_replacement_two_organisms() {
    let mut solver = SimpleReplacement {}.initialize_solver(2, OneMax { size: 1 }, MetropolisHastings {}, onemax_config(1, 1));
    for _ in 0..100 {
        assert_eq!(solver.update().len(), 2);
    }
}

#[test]
fn adaptive_counts_stay_positive() {
    let algo = SimpleAdaptive { prior_a: 1, prior_b: 1 };
    let mut solver = algo.initialize_solver(20, OneMax { size: 4 }, GreedySelection {}, onemax_config(4, 1));
    assert!(solver.counts().iter().all(|&c| c == (1, 1)));
    for _ in 0..2000 {
        assert_eq!(solver.update().len(), 20);
        assert!(solver.counts().iter().all(|&(a, b)| a >= 1 && b >= 1));
    }
}

#[test]
fn adaptive_priors_floored_at_one() {
    let algo = SimpleAdaptive { prior_a: 0, prior_b: 3 };
    let solver = algo.initialize_solver(5, OneMax { size: 2 }, MetropolisHastings {}, onemax_config(2, 1));
    assert!(solver.counts().iter().all(|&c| c == (1, 3)));
}

#[test]
fn map_elite_propose_keeps_niches() {
    let algo = MAPElite { feature_mapper: OneMaxMapper { number_of_octets: 1 } };
    let mut solver = algo.initialize_solver(10, OneMax { size: 2 }, GreedySelection {}, onemax_config(2, 1));
    assert_eq!(solver.niches()[0].1.get_score(), None);
    for _ in 0..500 {
        let before: Vec<u64> = solver.niches().iter().map(|(k, _)| *k).collect();
        let pick = before.len() - 1;
        solver.propose(pick);
        let after: Vec<u64> = solver.niches().iter().map(|(k, _)| *k).collect();
        assert!(after.len() == before.len() || after.len() == before.len() + 1);
        assert_eq!(&after[..before.len()], &before[..]);
        for (k, o) in solver.niches() {
            assert_eq!(*k, o.genotype().values[0] as u64);
        }
    }
}

#[test]
fn simple_compete_only_touches_replaced_slot() {
    let mut solver = SimpleReplacement {}.initialize_solver(5, OneMax { size: 2 }, GreedySelection {}, onemax_config(2, 1));
    for _ in 0..100 {
        let before: Vec<Vec<u8>> = solver.organisms().iter().map(|o| o.genotype().values.clone()).collect();
        solver.compete(0, 3);
        let after: Vec<Vec<u8>> = solver.organisms().iter().map(|o| o.genotype().values.clone()).collect();
        for k in [0usize, 1, 2, 4] {
            assert_eq!(before[k], after[k]);
        }
        assert!(solver.organisms()[3].get_score().is_some());
    }
}

#[test]
fn adaptive_count_step_rule() {

    assert_eq!(AdaptiveOrg::<OneMaxValue>::step(3, 2, true), 4);
    assert_eq!(AdaptiveOrg::<OneMaxValue>::step(3, 2, false), 2);
    assert_eq!(AdaptiveOrg::<OneMaxValue>::step(1, 2, false), 1);
    assert_eq!(AdaptiveOrg::<OneMaxValue>::step(u64::MAX - 2, 2, true), u64::MAX - 2);
}

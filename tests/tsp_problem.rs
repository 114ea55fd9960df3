use qd_strategies::config::ProblemBundle;
use qd_strategies::features::FeatureMapper;
use qd_strategies::grid_ga::GeneralizedMAPElite;
use qd_strategies::organism::{Mutator, Named, OrganismGenerator, Scorer};
use qd_strategies::problems::{DiscreteHyperparameters, Probability, ProblemInstanceGenerator, SpatialMapper};
use qd_strategies::selection::GreedySelection;
use qd_strategies::travelling_salesman::{
    integer_sqrt, squared_distance, SimpleTSPInstanceGenerator, TSPFeatureMapper, TSPInstance, TSPMutator,
    TSPRandomSolution, TSPScorer, TSPValue,
};

fn square_instance() -> TSPInstance {
    // four cities on the corners of a 3 x 4 rectangle
    let d = vec![vec![0, 3, 5, 4], vec![3, 0, 4, 5], vec![5, 4, 0, 3], vec![4, 5, 3, 0]];
    TSPInstance::new(d, 4)
}

#[test]
fn instance_extremes() {
    let inst = square_instance();
    assert_eq!(inst.max_dist(), 5);
    assert_eq!(inst.min_dist(), 3);
    assert_eq!(inst.number_of_cities(), 4);
    assert_eq!(inst.distance(0, 2), 5);
    let single = TSPInstance::new(vec![vec![0]], 1);
    assert_eq!((single.max_dist(), single.min_dist()), (0, 0));
}

#[test]
fn tour_score_is_slack_against_worst_case() {
    let inst = square_instance();
    let s = TSPScorer {};
    // perimeter tour: 3 + 4 + 3 + 4 = 14, worst case 5 * 4 = 20
    assert_eq!(s.score(&TSPValue { permutation: vec![0, 1, 2, 3] }, &inst), 6);
    // crossing tour: 5 + 4 + 5 + 4 = 18
    assert_eq!(s.score(&TSPValue { permutation: vec![0, 2, 1, 3] }, &inst), 2);
    // unknown city
    assert_eq!(s.score(&TSPValue { permutation: vec![0, 9, 1, 2] }, &inst), 0);
    assert_eq!(s.score(&TSPValue { permutation: vec![] }, &inst), 0);
}

#[test]
fn swap_mutation_keeps_cities() {
    let m = TSPMutator {};
    let mut t = TSPValue { permutation: vec![0usize, 1, 2, 3, 4] };
    let never = DiscreteHyperparameters { mutation_chance: Probability { num: 0, den: 1 } };
    assert!(!m.mutate(&mut t, &never));
    assert_eq!(t.permutation, vec![0, 1, 2, 3, 4]);
    let often = DiscreteHyperparameters { mutation_chance: Probability { num: 9, den: 10 } };
    for _ in 0..100 {
        m.mutate(&mut t, &often);
        let mut sorted = t.permutation.clone();
        sorted.sort();
        assert_eq!(sorted, vec![0, 1, 2, 3, 4]);
    }
    let mut one = TSPValue { permutation: vec![7usize] };
    assert!(!m.mutate(&mut one, &often));
}

#[test]
fn prefix_mapper() {
    let inst = square_instance();
    let m = TSPFeatureMapper { number_cities_mapped: 2 };
    assert_eq!(m.number_of_possible_features(&inst), 12);
    assert_eq!(TSPFeatureMapper { number_cities_mapped: 1 }.number_of_possible_features(&inst), 4);
    assert_eq!(TSPFeatureMapper { number_cities_mapped: 5 }.number_of_possible_features(&inst), 0);
    assert_eq!(m.project(&TSPValue { permutation: vec![2, 3, 0, 1] }), 11);
    assert_eq!(m.project(&TSPValue { permutation: vec![3, 2, 0, 1] }), 14);
    assert_eq!(m.project(&TSPValue { permutation: vec![1] }), 1);
    assert_eq!(m.default_features(), 0);
    assert_eq!(m.name(), "Keep first N cities mapper");
}

#[test]
fn random_tour_is_permutation() {
    let g = TSPRandomSolution::new();
    let inst = square_instance();
    for _ in 0..20 {
        let mut t = g.generate(&inst).permutation;
        t.sort();
        assert_eq!(t, vec![0, 1, 2, 3]);
    }
    assert_eq!(TSPRandomSolution::random_tour(0).permutation, Vec::<usize>::new());
}

#[test]
fn integer_square_roots() {
    assert_eq!(integer_sqrt(0), 0);
    assert_eq!(integer_sqrt(24), 4);
    assert_eq!(integer_sqrt(25), 5);
    assert_eq!(integer_sqrt(u64::MAX), 4294967295);
    assert_eq!(squared_distance(&vec![0, 0], &vec![3, 4]), 25);
    assert_eq!(squared_distance(&vec![10, 2], &vec![7, 6]), 25);
}

#[test]
fn instance_from_points_uses_integer_distances() {
    let points = vec![vec![0, 0], vec![3, 4], vec![6, 8], vec![1, 1]];
    let inst = SimpleTSPInstanceGenerator::instance_from_points(&points, 2);
    assert_eq!(inst.number_of_cities(), 4);
    assert_eq!(inst.distance(0, 1), 5);
    assert_eq!(inst.distance(0, 2), 10);
    assert_eq!(inst.distance(2, 1), 5);
    assert_eq!(inst.distance(0, 3), 1);
    assert_eq!(inst.distance(3, 3), 0);
    assert_eq!(inst.max_dist(), 10);
    assert_eq!(inst.min_dist(), 1);
}

#[test]
fn generated_instance_is_symmetric() {
    let inst = SimpleTSPInstanceGenerator { number_of_cities: 6, number_of_dimensions: 2 }.generate_problem();
    assert_eq!(inst.number_of_cities(), 6);
    for i in 0..6 {
        assert_eq!(inst.distance(i, i), 0);
        for j in 0..6 {
            assert_eq!(inst.distance(i, j), inst.distance(j, i));
            assert!(inst.distance(i, j) <= 141);
        }
    }
}

#[test]
fn grid_solver_on_tsp() {
    let inst = square_instance();
    let config = ProblemBundle {
        random_organism_generator: TSPRandomSolution::new(),
        problem_instance_generator: SimpleTSPInstanceGenerator { number_of_cities: 4, number_of_dimensions: 2 },
        constant_hyperparameters: DiscreteHyperparameters { mutation_chance: Probability { num: 1, den: 2 } },
        hyperparameter_mapper: SpatialMapper { number_of_additional_dimensions: 0 },
        scorer: TSPScorer {},
        mutator: TSPMutator {},
        feature_mapper: TSPFeatureMapper { number_cities_mapped: 1 },
    };
    let algo = GeneralizedMAPElite { use_features: true, use_hyperparameter_mapping: true, number_of_spatial_dimensions: 1 };
    let mut solver = algo.initialize_solver(40, square_instance(), GreedySelection {}, config);
    assert_eq!(solver.shape(), &vec![10]);
    for _ in 0..500 {
        let pop = solver.update();
        assert!(!pop.is_empty() && pop.len() <= 10 * 4);
        for o in &pop {
            assert!(TSPScorer {}.score(o.genotype(), &inst) <= 6);
        }
    }
}

#[test]
fn random_tours_are_shuffled() {
    let identity: Vec<usize> = (0..8).collect();
    let shuffled = (0..20).filter(|_| TSPRandomSolution::random_tour(8).permutation != identity).count();
    assert!(shuffled > 0);
}

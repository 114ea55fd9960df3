use qd_strategies::features::FeatureMapper;
use qd_strategies::organism::{Mutator, OrganismGenerator, Scorer};
use qd_strategies::onemax::{count_byte_ones, OneMax, OneMaxGenerator, OneMaxMapper, OneMaxMutator, OneMaxScorer, OneMaxValue};
use qd_strategies::problems::{DiscreteHyperparameters, Probability, ProblemInstanceGenerator};

#[test]
fn byte_popcount() {
    assert_eq!(count_byte_ones(0), 0);
    assert_eq!(count_byte_ones(0xff), 8);
    assert_eq!(count_byte_ones(0b1010_0001), 3);
}

#[test]
fn onemax_score_counts_bits() {
    let s = OneMaxScorer {};
    let p = OneMax { size: 3 };
    assert_eq!(s.score(&OneMaxValue { values: vec![0, 0, 0] }, &p), 0);
    assert_eq!(s.score(&OneMaxValue { values: vec![1, 3, 0xff] }, &p), 11);
    assert_eq!(s.score(&OneMaxValue { values: vec![] }, &p), 0);
}

#[test]
fn onemax_generator_all_zero() {
    let g = OneMaxGenerator {};
    let p = OneMax { size: 5 }.generate_problem();
    assert_eq!(g.generate(&p).values, vec![0u8; 5]);
    let o = g.generate_organism(&p);
    assert_eq!(o.get_score(), None);
}

#[test]
fn onemax_mapper_keys() {
    let m = OneMaxMapper { number_of_octets: 2 };
    let p = OneMax { size: 3 };
    assert_eq!(m.number_of_possible_features(&p), 65536);
    assert_eq!(m.project(&OneMaxValue { values: vec![1, 2, 3] }), 258);
    assert_eq!(m.project(&OneMaxValue { values: vec![7] }), 7);
    assert_eq!(m.default_features(), 0);
    assert_eq!(OneMaxMapper { number_of_octets: 1 }.number_of_possible_features(&p), 256);
    assert_eq!(OneMaxMapper { number_of_octets: 0 }.number_of_possible_features(&p), 1);
    assert_eq!(OneMaxMapper { number_of_octets: 100 }.number_of_possible_features(&p), usize::MAX);
}

#[test]
fn onemax_mutator_certain_and_impossible() {
    let m = OneMaxMutator {};
    let mut g = OneMaxValue { values: vec![0; 4] };
    let never = DiscreteHyperparameters { mutation_chance: Probability { num: 0, den: 2 } };
    assert!(!m.mutate(&mut g, &never));
    assert_eq!(g.values, vec![0; 4]);
    let half = DiscreteHyperparameters { mutation_chance: Probability { num: 1, den: 2 } };
    for _ in 0..50 {
        let before = g.clone();
        let changed = m.mutate(&mut g, &half);
        if !changed {
            assert!(before == g);
        }
        assert_eq!(g.values.len(), 4);
    }
}

#[test]
fn onemax_hamming_distance() {
    let a = OneMaxValue { values: vec![0b1111_0000, 0x00, 0xff] };
    let b = OneMaxValue { values: vec![0b0000_0000, 0x01] };
    assert_eq!(a.distance_to(&b), 5);
    assert_eq!(b.distance_to(&a), 5);
    assert_eq!(a.distance_to(&a), 0);
    assert_eq!(a.distance_to(&OneMaxValue { values: vec![] }), 0);
}

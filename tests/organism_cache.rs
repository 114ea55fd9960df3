use std::cell::Cell;

use qd_strategies::organism::{Mutator, Organism, Scorer};

struct CountingScorer {
    calls: Cell<u32>,
}

fn weight(genome: &[u8], problem: u64) -> u64 {
    genome.iter().map(|&b| b as u64).sum::<u64>() + problem
}

impl Scorer<Vec<u8>, u64> for CountingScorer {
    fn spec_score(&self, genome: Vec<u8>, problem: u64) -> u64 {
        weight(&genome, problem)
    }

    fn score(&self, genome: &Vec<u8>, problem: &u64) -> u64 {
        self.calls.set(self.calls.get() + 1);
        weight(genome, *problem)
    }
}

struct AppendMutator;

impl Mutator<Vec<u8>, u8> for AppendMutator {
    fn spec_mutation(&self, _before: Vec<u8>, _hyperparameters: u8, _after: Vec<u8>, _changed: bool) -> bool {
        true
    }

    fn mutate(&self, genome: &mut Vec<u8>, hyperparameters: &u8) -> bool {
        genome.push(*hyperparameters);
        true
    }
}

struct NoOpMutator;

impl Mutator<Vec<u8>, u8> for NoOpMutator {
    fn spec_mutation(&self, _before: Vec<u8>, _hyperparameters: u8, _after: Vec<u8>, _changed: bool) -> bool {
        true
    }

    fn mutate(&self, _genome: &mut Vec<u8>, _hyperparameters: &u8) -> bool {
        false
    }
}

#[test]
fn new_organism_has_no_cached_score() {
    let o = Organism::new(vec![1u8, 2]);
    assert_eq!(o.get_score(), None);
    assert_eq!(o.genotype(), &vec![1u8, 2]);
}

#[test]
fn mutate_clears_cache() {
    let scorer = CountingScorer { calls: Cell::new(0) };
    let mut o = Organism::new(vec![1u8, 2]);
    assert_eq!(o.score_with_cache(&scorer, &10), 13);
    assert_eq!(o.get_score(), Some(13));
    assert!(o.mutate(&AppendMutator, &4));
    assert_eq!(o.get_score(), None);
    assert_eq!(o.genotype(), &vec![1u8, 2, 4]);
    assert_eq!(o.only_score(&scorer, &10), 17);
    assert_eq!(o.get_score(), None);
    assert_eq!(o.score_with_cache(&scorer, &10), 17);
    assert_eq!(o.get_score(), Some(17));
}

#[test]
fn unchanged_mutation_still_clears_cache() {
    let scorer = CountingScorer { calls: Cell::new(0) };
    let mut o = Organism::new(vec![7u8]);
    o.score_with_cache(&scorer, &0);
    assert!(!o.mutate(&NoOpMutator, &0));
    assert_eq!(o.get_score(), None);
    assert_eq!(o.genotype(), &vec![7u8]);
}

#[test]
fn score_with_cache_runs_scorer_once() {
    let scorer = CountingScorer { calls: Cell::new(0) };
    let mut o = Organism::new(vec![3u8, 4]);
    let first = o.score_with_cache(&scorer, &1);
    let second = o.score_with_cache(&scorer, &1);
    let third = o.score_with_cache(&scorer, &1);
    assert_eq!(first, 8);
    assert_eq!(second, 8);
    assert_eq!(third, 8);
    assert_eq!(scorer.calls.get(), 1);
}

#[test]
fn only_score_does_not_fill_cache() {
    let scorer = CountingScorer { calls: Cell::new(0) };
    let o = Organism::new(vec![5u8]);
    assert_eq!(o.only_score(&scorer, &2), 7);
    assert_eq!(o.only_score(&scorer, &2), 7);
    assert_eq!(o.get_score(), None);
    assert_eq!(scorer.calls.get(), 2);
}

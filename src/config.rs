use vstd::prelude::*;

use crate::features::FeatureMapper;
use crate::organism::{Mutator, Organism, OrganismGenerator, Scorer};
use crate::problems::{axis_ok, Environment, Hyperparameter, ProblemInstanceGenerator};

verus! {

/// Everything a solver needs from a problem domain, shared read-only by all
/// solvers that evaluate one problem instance.
pub trait ProblemConfig<V, P, H>: Scorer<V, P> + Mutator<V, H> {
    spec fn spec_project(&self, genome: V) -> u64;

    spec fn spec_feature_count(&self, problem: P) -> nat;

    spec fn spec_default_features(&self) -> u64;

    spec fn spec_hyperparameter_dims(&self) -> nat;

    /// The hyperparameters of a grid position.
    spec fn spec_map_hyperparameters(&self, coordinates: Seq<(usize, usize)>) -> H;

    /// The hyperparameters used where none are mapped.
    spec fn spec_constant_hyperparameters(&self) -> H;

    /// What every generated genotype satisfies.
    spec fn spec_generated(&self, problem: P, genome: V) -> bool;

    fn generate_organism(&self, problem: &P) -> (r: Organism<V>)
        ensures
            r.cached_score() is None,
            self.spec_generated(*problem, r.spec_genotype()),
    ;

    fn number_of_possible_features(&self, problem: &P) -> (r: usize)
        ensures
            r == self.spec_feature_count(*problem),
    ;

    fn project(&self, genome: &V) -> (r: u64)
        ensures
            r == self.spec_project(*genome),
    ;

    fn default_features(&self) -> (r: u64)
        ensures
            r == self.spec_default_features(),
    ;

    fn number_of_hyperparameters(&self) -> (r: usize)
        ensures
            r == self.spec_hyperparameter_dims(),
    ;

    fn map_hyperparameters(&self, coordinates: &Vec<(usize, usize)>) -> (r: H)
        requires
            coordinates@.len() == self.spec_hyperparameter_dims(),
            forall|i: int| 0 <= i < coordinates@.len() ==> axis_ok(#[trigger] coordinates@[i]),
        ensures
            r == self.spec_map_hyperparameters(coordinates@),
    ;

    fn constant_hyperparameters(&self) -> (r: H)
        ensures
            r == self.spec_constant_hyperparameters(),
    ;
}

/// The immutable bundle of a problem's collaborators and constant hyperparameters.
#[derive(Clone)]
pub struct ProblemBundle<G, I, E, S, M, FM, H> {
    pub random_organism_generator: G,
    pub problem_instance_generator: I,
    pub constant_hyperparameters: H,
    pub hyperparameter_mapper: E,
    pub scorer: S,
    pub mutator: M,
    pub feature_mapper: FM,
}

impl<V, P, H, G, I, E, S: Scorer<V, P>, M, FM> Scorer<V, P> for ProblemBundle<G, I, E, S, M, FM, H> {
    open spec fn spec_score(&self, genome: V, problem: P) -> u64 {
        self.scorer.spec_score(genome, problem)
    }

    fn score(&self, genome: &V, problem: &P) -> (r: u64) {
        self.scorer.score(genome, problem)
    }
}

impl<V, H, G, I, E, S, M: Mutator<V, H>, FM> Mutator<V, H> for ProblemBundle<G, I, E, S, M, FM, H> {
    open spec fn spec_mutation(&self, before: V, hyperparameters: H, after: V, changed: bool) -> bool {
        self.mutator.spec_mutation(before, hyperparameters, after, changed)
    }

    fn mutate(&self, genome: &mut V, hyperparameters: &H) -> (changed: bool) {
        self.mutator.mutate(genome, hyperparameters)
    }
}

impl<
    V,
    P,
    H: Hyperparameter + Copy,
    G: OrganismGenerator<V, P>,
    I: ProblemInstanceGenerator<P>,
    E: Environment<H>,
    S: Scorer<V, P>,
    M: Mutator<V, H>,
    FM: FeatureMapper<V, P>,
> ProblemConfig<V, P, H> for ProblemBundle<G, I, E, S, M, FM, H> {
    open spec fn spec_project(&self, genome: V) -> u64 {
        self.feature_mapper.spec_project(genome)
    }

    open spec fn spec_feature_count(&self, problem: P) -> nat {
        self.feature_mapper.spec_feature_count(problem)
    }

    open spec fn spec_default_features(&self) -> u64 {
        self.feature_mapper.spec_default_features()
    }

    open spec fn spec_hyperparameter_dims(&self) -> nat {
        H::spec_number_of_hyperparameters()
    }

    open spec fn spec_map_hyperparameters(&self, coordinates: Seq<(usize, usize)>) -> H {
        self.hyperparameter_mapper.spec_map_hyperparameters(coordinates)
    }

    open spec fn spec_constant_hyperparameters(&self) -> H {
        self.constant_hyperparameters
    }

    open spec fn spec_generated(&self, problem: P, genome: V) -> bool {
        self.random_organism_generator.spec_generated(problem, genome)
    }

    fn generate_organism(&self, problem: &P) -> (r: Organism<V>) {
        self.random_organism_generator.generate_organism(problem)
    }

    fn number_of_possible_features(&self, problem: &P) -> (r: usize) {
        self.feature_mapper.number_of_possible_features(problem)
    }

    fn project(&self, genome: &V) -> (r: u64) {
        self.feature_mapper.project(genome)
    }

    fn default_features(&self) -> (r: u64) {
        self.feature_mapper.default_features()
    }

    fn number_of_hyperparameters(&self) -> (r: usize) {
        self.hyperparameter_mapper.number_of_hyperparameters()
    }

    fn map_hyperparameters(&self, coordinates: &Vec<(usize, usize)>) -> (r: H) {
        self.hyperparameter_mapper.map_hyperparameters(coordinates)
    }

    fn constant_hyperparameters(&self) -> (r: H) {
        self.constant_hyperparameters
    }
}

} // verus!

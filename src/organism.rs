use vstd::prelude::*;

verus! {

/// Fitness of a genotype on a problem instance: a non-negative integer,
/// higher is better.
pub trait Scorer<V, P> {
    spec fn spec_score(&self, genome: V, problem: P) -> u64;

    fn score(&self, genome: &V, problem: &P) -> (r: u64)
        ensures
            r == self.spec_score(*genome, *problem),
    ;
}

/// In-place perturbation of a genotype, tuned by hyperparameters `H`.
pub trait Mutator<V, H> {
    /// What one call may do: `before` becomes `after` under
    /// `hyperparameters`, and `changed` is what the call reports.
    spec fn spec_mutation(&self, before: V, hyperparameters: H, after: V, changed: bool) -> bool;

    /// Returns whether the genotype was modified; an unmodified one stays equal.
    fn mutate(&self, genome: &mut V, hyperparameters: &H) -> (changed: bool)
        ensures
            self.spec_mutation(*old(genome), *hyperparameters, *final(genome), changed),
            !changed ==> *final(genome) == *old(genome),
    ;
}

/// Something with a human-readable name.
pub trait Named {
    fn name(&self) -> String;
}

/// Produces fresh random genotypes for a problem instance.
pub trait OrganismGenerator<V, P> {
    /// What every genotype generated for `problem` satisfies.
    spec fn spec_generated(&self, problem: P, genome: V) -> bool;

    fn generate(&self, problem: &P) -> (r: V)
        ensures
            self.spec_generated(*problem, r),
    ;

    /// A fresh genotype wrapped as an organism with an empty score cache.
    fn generate_organism(&self, problem: &P) -> (r: Organism<V>)
        ensures
            r.cached_score() is None,
            self.spec_generated(*problem, r.spec_genotype()),
    {
        Organism::new(self.generate(problem))
    }
}

/// A genotype together with its memoized score.
#[derive(Clone)]
pub struct Organism<V> {
    genotype: V,
    score: Option<u64>,
}

impl<V> Organism<V> {
    /// The genotype.
    pub closed spec fn spec_genotype(&self) -> V {
        self.genotype
    }

    /// The memoized score, if any.
    pub closed spec fn cached_score(&self) -> Option<u64> {
        self.score
    }

    /// The organism as it stands after a call of `score_with_cache`.
    pub closed spec fn scored<P, S: Scorer<V, P>>(self, scorer: &S, problem: &P) -> Organism<V> {
        match self.score {
            Some(_) => self,
            None => Organism { genotype: self.genotype, score: Some(scorer.spec_score(self.genotype, *problem)) },
        }
    }

    /// The cache, when present, holds the score of the current genotype.
    pub open spec fn cache_valid<P, S: Scorer<V, P>>(&self, scorer: &S, problem: &P) -> bool {
        self.cached_score() is Some ==> self.cached_score() == Some(scorer.spec_score(self.spec_genotype(), *problem))
    }

    pub fn new(genotype: V) -> (r: Organism<V>)
        ensures
            r.spec_genotype() == genotype,
            r.cached_score() is None,
    {
        Organism { genotype, score: None }
    }

    /// Applies `mutator` in place and clears the score cache; returns whether
    /// the genotype changed.
    pub fn mutate<H, M: Mutator<V, H>>(&mut self, mutator: &M, hyperparameters: &H) -> (changed: bool)
        ensures
            final(self).cached_score() is None,
            mutator.spec_mutation(old(self).spec_genotype(), *hyperparameters, final(self).spec_genotype(), changed),
            !changed ==> final(self).spec_genotype() == old(self).spec_genotype(),
    {
        let changed = mutator.mutate(&mut self.genotype, hyperparameters);
        self.score = None;
        changed
    }

    /// A copy: the genotype is cloned, the cache kept.
    pub fn duplicate(&self) -> (r: Organism<V>)
        where
            V: Clone,
        ensures
            cloned(self.spec_genotype(), r.spec_genotype()),
            r.cached_score() == self.cached_score(),
    {
        Organism { genotype: self.genotype.clone(), score: self.score }
    }

    pub fn genotype(&self) -> (r: &V)
        ensures
            *r == self.spec_genotype(),
    {
        &self.genotype
    }

    pub fn get_score(&self) -> (r: Option<u64>)
        ensures
            r == self.cached_score(),
    {
        self.score
    }

    /// Scores the genotype without touching the cache.
    pub fn only_score<P, S: Scorer<V, P>>(&self, scorer: &S, problem: &P) -> (r: u64)
        ensures
            r == scorer.spec_score(self.spec_genotype(), *problem),
    {
        scorer.score(&self.genotype, problem)
    }

    /// Returns the cached score, computing and storing it first when absent.
    pub fn score_with_cache<P, S: Scorer<V, P>>(&mut self, scorer: &S, problem: &P) -> (r: u64)
        ensures
            *final(self) == old(self).scored(scorer, problem),
            final(self).spec_genotype() == old(self).spec_genotype(),
            final(self).cached_score() == Some(r),
            old(self).cached_score() is Some ==> r == old(self).cached_score()->Some_0,
            old(self).cached_score() is None ==> r == scorer.spec_score(old(self).spec_genotype(), *problem),
            old(self).cache_valid(scorer, problem) ==> r == scorer.spec_score(old(self).spec_genotype(), *problem),
    {
        match self.score {
            None => {
                let s = scorer.score(&self.genotype, problem);
                self.score = Some(s);
                s
            },
            Some(s) => s,
        }
    }
}

/// Scoring twice in a row with no mutation between: the second call finds the
/// cache filled (so the scorer is not run again), returns the same value and
/// leaves the organism as the first call left it.
pub proof fn lemma_score_with_cache_idempotent<V, P, S: Scorer<V, P>>(o: Organism<V>, scorer: &S, problem: &P)
    ensures
        o.scored(scorer, problem).cached_score() is Some,
        o.scored(scorer, problem).scored(scorer, problem) == o.scored(scorer, problem),
        o.scored(scorer, problem).scored(scorer, problem).cached_score() == o.scored(scorer, problem).cached_score(),
{
}

/// What scoring does: a filled cache is left alone; an empty one receives
/// the scorer's value; the genotype never changes.
pub proof fn lemma_scored<V, P, S: Scorer<V, P>>(o: Organism<V>, scorer: &S, problem: &P)
    ensures
        o.scored(scorer, problem).spec_genotype() == o.spec_genotype(),
        o.cached_score() is Some ==> o.scored(scorer, problem) == o,
        o.cached_score() is None ==> o.scored(scorer, problem).cached_score() == Some(
            scorer.spec_score(o.spec_genotype(), *problem),
        ),
{
}

/// A freshly scored organism has a valid cache, and a valid cache survives scoring.
pub proof fn lemma_scored_cache_valid<V, P, S: Scorer<V, P>>(o: Organism<V>, scorer: &S, problem: &P)
    requires
        o.cache_valid(scorer, problem),
    ensures
        o.scored(scorer, problem).cache_valid(scorer, problem),
        o.scored(scorer, problem).spec_genotype() == o.spec_genotype(),
{
}

} // verus!

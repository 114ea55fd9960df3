use vstd::prelude::*;

use crate::config::ProblemConfig;
use crate::niche::copy_of;
use crate::organism::{lemma_scored, lemma_scored_cache_valid, Mutator, Named, Organism, Scorer};
use crate::problems::{DiscreteHyperparameters, Probability};
use crate::random::random_coin;
use crate::selection::Elitism;
use crate::simple::distinct_pair;

verus! {

/// Self-adaptive GA: each organism carries Beta pseudo-counts `(a, b)` that
/// set its own mutation chance `a / (a + b)`.
#[derive(Copy, Clone)]
pub struct SimpleAdaptive {
    pub prior_a: u64,
    pub prior_b: u64,
}

impl Named for SimpleAdaptive {
    fn name(&self) -> String {
        "Simple Adaptive GA".to_owned()
    }
}

/// Pseudo-counts that are at least one and whose sum fits.
pub open spec fn counts_ok(a: u64, b: u64) -> bool {
    a >= 1 && b >= 1 && a + b <= u64::MAX
}

/// The hyperparameters of pseudo-counts `(a, b)`: mutation chance `a / (a + b)`.
pub open spec fn chance_of(a: u64, b: u64) -> DiscreteHyperparameters {
    DiscreteHyperparameters { mutation_chance: Probability { num: a, den: (a + b) as u64 } }
}

/// A prior floored at one.
pub open spec fn floor_one(x: u64) -> u64 {
    if x >= 1 {
        x
    } else {
        1
    }
}

/// An organism with its pseudo-counts.
pub struct AdaptiveOrg<V> {
    a: u64,
    b: u64,
    org: Organism<V>,
}

impl<V: Clone> AdaptiveOrg<V> {
    pub closed spec fn spec_a(&self) -> u64 {
        self.a
    }

    pub closed spec fn spec_b(&self) -> u64 {
        self.b
    }

    pub closed spec fn spec_organism(&self) -> Organism<V> {
        self.org
    }

    /// Wraps an organism, flooring the priors at one.
    pub fn new(prior_a: u64, prior_b: u64, organism: Organism<V>) -> (r: AdaptiveOrg<V>)
        requires
            floor_one(prior_a) + floor_one(prior_b) <= u64::MAX,
        ensures
            r.spec_a() == floor_one(prior_a),
            r.spec_b() == floor_one(prior_b),
            counts_ok(r.spec_a(), r.spec_b()),
            r.spec_organism() == organism,
    {
        let a = if prior_a >= 1 {
            prior_a
        } else {
            1
        };
        let b = if prior_b >= 1 {
            prior_b
        } else {
            1
        };
        AdaptiveOrg { a, b, org: organism }
    }

    pub fn into_organism(self) -> (r: Organism<V>)
        ensures
            r == self.spec_organism(),
    {
        self.org
    }

    /// The mutation chance `a / (a + b)`.
    pub fn get_mut_prob(&self) -> (r: Probability)
        requires
            counts_ok(self.spec_a(), self.spec_b()),
        ensures
            r.num == self.spec_a(),
            r.den == self.spec_a() + self.spec_b(),
            r.wf(),
    {
        Probability { num: self.a, den: self.a + self.b }
    }

    /// Random walk of the pseudo-counts: while a draw succeeds with the
    /// current mutation chance, one of `a`, `b` moves by one, never below one.
    pub fn mut_prob(&mut self)
        requires
            counts_ok(old(self).spec_a(), old(self).spec_b()),
        ensures
            counts_ok(final(self).spec_a(), final(self).spec_b()),
            final(self).spec_organism() == old(self).spec_organism(),
    {
        let mut budget: u64 = u64::MAX;
        while budget > 0 && self.get_mut_prob().sample()
            invariant
                counts_ok(self.a, self.b),
                self.org == old(self).org,
            decreases budget,
        {
            let on_a = random_coin();
            let up = random_coin();
            if on_a {
                self.a = Self::step(self.a, self.b, up);
            } else {
                self.b = Self::step(self.b, self.a, up);
            }
            budget = budget - 1;
        }
    }

    /// One move of a pseudo-count `x` (whose partner is `other`): up or down
    /// by one, floored at one; an increment that would overflow the sum is
    /// not taken.
    pub fn step(x: u64, other: u64, up: bool) -> (r: u64)
        requires
            counts_ok(x, other),
        ensures
            counts_ok(r, other),
            up && x + other < u64::MAX ==> r == x + 1,
            !up ==> r == if x > 1 { (x - 1) as u64 } else { 1u64 },
    {
        if up {
            if x < u64::MAX - other {
                x + 1
            } else {
                x
            }
        } else if x > 1 {
            x - 1
        } else {
            1
        }
    }

    /// Walks the pseudo-counts, then mutates the organism with the updated
    /// chance `a / (a + b)` as its one hyperparameter; returns whether the
    /// genotype changed.
    pub fn mutate<M: Mutator<V, DiscreteHyperparameters>>(&mut self, mutator: &M) -> (changed: bool)
        requires
            counts_ok(old(self).spec_a(), old(self).spec_b()),
        ensures
            counts_ok(final(self).spec_a(), final(self).spec_b()),
            final(self).spec_organism().cached_score() is None,
            mutator.spec_mutation(
                old(self).spec_organism().spec_genotype(),
                chance_of(final(self).spec_a(), final(self).spec_b()),
                final(self).spec_organism().spec_genotype(),
                changed,
            ),
    {
        self.mut_prob();
        let hyper = DiscreteHyperparameters { mutation_chance: self.get_mut_prob() };
        self.org.mutate(mutator, &hyper)
    }

    pub fn score_with_cache<P, S: Scorer<V, P>>(&mut self, scorer: &S, problem: &P) -> (r: u64)
        ensures
            final(self).spec_a() == old(self).spec_a(),
            final(self).spec_b() == old(self).spec_b(),
            final(self).spec_organism() == old(self).spec_organism().scored(scorer, problem),
            final(self).spec_organism().cached_score() == Some(r),
            old(self).spec_organism().cache_valid(scorer, problem) ==> final(self).spec_organism().cache_valid(
                scorer,
                problem,
            ),
            old(self).spec_organism().cache_valid(scorer, problem) ==> r == scorer.spec_score(
                old(self).spec_organism().spec_genotype(),
                *problem,
            ),
    {
        proof {
            if self.org.cache_valid(scorer, problem) {
                lemma_scored_cache_valid(self.org, scorer, problem);
            }
        }
        self.org.score_with_cache(scorer, problem)
    }

    pub fn organism_ref(&self) -> (r: &Organism<V>)
        ensures
            *r == self.spec_organism(),
    {
        &self.org
    }

    /// A copy with the same pseudo-counts.
    pub fn duplicate(&self) -> (r: AdaptiveOrg<V>)
        ensures
            r.spec_a() == self.spec_a(),
            r.spec_b() == self.spec_b(),
            copy_of(self.spec_organism(), r.spec_organism()),
    {
        AdaptiveOrg { a: self.a, b: self.b, org: self.org.duplicate() }
    }
}

impl SimpleAdaptive {
    /// A population of `pop_size` fresh organisms, each with the priors.
    pub fn initialize_solver<V: Clone, P, C: ProblemConfig<V, P, DiscreteHyperparameters>, El: Elitism>(
        &self,
        pop_size: usize,
        problem: P,
        elitism: El,
        problem_config: C,
    ) -> (r: SimpleAdaptiveExec<V, P, C, El>)
        requires
            pop_size >= 2,
            floor_one(self.prior_a) + floor_one(self.prior_b) <= u64::MAX,
        ensures
            r.wf(),
            r.spec_organisms().len() == pop_size,
            forall|k: int|
                0 <= k < pop_size ==> {
                    &&& (#[trigger] r.spec_organisms()[k]).spec_a() == floor_one(self.prior_a)
                    &&& r.spec_organisms()[k].spec_b() == floor_one(self.prior_b)
                    &&& r.spec_organisms()[k].spec_organism().cached_score() is None
                    &&& problem_config.spec_generated(problem, r.spec_organisms()[k].spec_organism().spec_genotype())
                },
            r.spec_config() == problem_config,
            r.spec_problem() == problem,
            r.spec_elitism() == elitism,
    {
        let mut organisms: Vec<AdaptiveOrg<V>> = Vec::new();
        let mut i: usize = 0;
        while i < pop_size
            invariant
                i <= pop_size,
                organisms@.len() == i,
                floor_one(self.prior_a) + floor_one(self.prior_b) <= u64::MAX,
                forall|k: int| 0 <= k < i ==> adaptive_ok(#[trigger] organisms@[k], problem_config, problem),
                forall|k: int|
                    0 <= k < i ==> {
                        &&& (#[trigger] organisms@[k]).spec_a() == floor_one(self.prior_a)
                        &&& organisms@[k].spec_b() == floor_one(self.prior_b)
                        &&& organisms@[k].spec_organism().cached_score() is None
                        &&& problem_config.spec_generated(problem, organisms@[k].spec_organism().spec_genotype())
                    },
            decreases pop_size - i,
        {
            let org = problem_config.generate_organism(&problem);
            organisms.push(AdaptiveOrg::new(self.prior_a, self.prior_b, org));
            i = i + 1;
        }
        SimpleAdaptiveExec { problem, organisms, problem_config, elitism }
    }
}

/// Counts in range and a valid score cache.
pub open spec fn adaptive_ok<V: Clone, P, C: ProblemConfig<V, P, DiscreteHyperparameters>>(
    o: AdaptiveOrg<V>,
    config: C,
    problem: P,
) -> bool {
    counts_ok(o.spec_a(), o.spec_b()) && o.spec_organism().cache_valid(&config, &problem)
}

/// A running self-adaptive GA.
pub struct SimpleAdaptiveExec<V, P, C: ProblemConfig<V, P, DiscreteHyperparameters>, El: Elitism> {
    problem: P,
    organisms: Vec<AdaptiveOrg<V>>,
    problem_config: C,
    elitism: El,
}

impl<V: Clone, P, C: ProblemConfig<V, P, DiscreteHyperparameters>, El: Elitism> SimpleAdaptiveExec<V, P, C, El> {
    pub closed spec fn spec_organisms(&self) -> Seq<AdaptiveOrg<V>> {
        self.organisms@
    }

    pub closed spec fn spec_config(&self) -> C {
        self.problem_config
    }

    pub closed spec fn spec_problem(&self) -> P {
        self.problem
    }

    pub closed spec fn spec_elitism(&self) -> El {
        self.elitism
    }

    /// Everything but the population is the same in `other`.
    pub open spec fn same_setting(&self, other: &Self) -> bool {
        &&& other.spec_config() == self.spec_config()
        &&& other.spec_problem() == self.spec_problem()
        &&& other.spec_elitism() == self.spec_elitism()
    }

    /// At least two organisms, each with counts in range and a valid cache.
    pub open spec fn wf(&self) -> bool {
        &&& self.spec_organisms().len() >= 2
        &&& forall|k: int|
            0 <= k < self.spec_organisms().len() ==> adaptive_ok(
                #[trigger] self.spec_organisms()[k],
                self.spec_config(),
                self.spec_problem(),
            )
    }

    /// The population `after` is the outcome of one step: the organism at
    /// `index_a` is copied (its genotype cloned into `source`), its counts
    /// walk to those of `mutant`, it mutates with chance `a / (a + b)` of
    /// the walked counts and, scored, duels the one at `index_replace`: it
    /// takes the place when the comparator keeps it, else the incumbent
    /// stays with its cache filled.
    pub open spec fn spec_proposal(
        &self,
        after: Seq<AdaptiveOrg<V>>,
        index_a: int,
        index_replace: int,
        source: V,
        mutant: AdaptiveOrg<V>,
        changed: bool,
    ) -> bool {
        let cfg = self.spec_config();
        let pb = self.spec_problem();
        let before = self.spec_organisms();
        let m = mutant.spec_organism();
        let incumbent = before[index_replace];
        let scored = incumbent.spec_organism().scored(&cfg, &pb);
        let score_a = m.cached_score()->Some_0;
        let score_b = scored.cached_score()->Some_0;
        &&& 0 <= index_a < before.len()
        &&& 0 <= index_replace < before.len()
        &&& index_a != index_replace
        &&& cloned(before[index_a].spec_organism().spec_genotype(), source)
        &&& counts_ok(mutant.spec_a(), mutant.spec_b())
        &&& cfg.spec_mutation(source, chance_of(mutant.spec_a(), mutant.spec_b()), m.spec_genotype(), changed)
        &&& m.cached_score() == Some(cfg.spec_score(m.spec_genotype(), pb))
        &&& after.len() == before.len()
        &&& forall|k: int| 0 <= k < before.len() && k != index_replace ==> #[trigger] after[k] == before[k]
        &&& {
            ||| (after[index_replace] == mutant && self.spec_elitism().spec_admits(score_a, score_b, true))
            ||| (after[index_replace].spec_a() == incumbent.spec_a() && after[index_replace].spec_b()
                == incumbent.spec_b() && after[index_replace].spec_organism() == scored
                && self.spec_elitism().spec_admits(score_a, score_b, false))
        }
    }

    /// One step with its indices given: a copy of `index_a` walks its counts
    /// and mutates, then competes against `index_replace` and overwrites it
    /// when the comparator keeps it. Only position `index_replace` changes.
    pub fn compete(&mut self, index_a: usize, index_replace: usize)
        requires
            old(self).wf(),
            index_a < old(self).spec_organisms().len(),
            index_replace < old(self).spec_organisms().len(),
            index_a != index_replace,
        ensures
            final(self).wf(),
            old(self).same_setting(&*final(self)),
            exists|source: V, mutant: AdaptiveOrg<V>, changed: bool|
                #[trigger] old(self).spec_proposal(
                    final(self).spec_organisms(),
                    index_a as int,
                    index_replace as int,
                    source,
                    mutant,
                    changed,
                ),
    {
        let ghost old_o = self.organisms@;
        let ghost cfg = self.problem_config;
        let ghost pb = self.problem;
        let mut candidate = self.organisms[index_a].duplicate();
        let ghost source = candidate.spec_organism().spec_genotype();
        assert(adaptive_ok(old_o[index_a as int], self.problem_config, self.problem));
        let changed = candidate.mutate(&self.problem_config);
        let ghost unscored = candidate.spec_organism();
        let score = candidate.score_with_cache(&self.problem_config, &self.problem);
        let ghost mutant = candidate;
        proof {
            lemma_scored(unscored, &cfg, &pb);
        }
        let mut incumbent = self.organisms.remove(index_replace);
        let score_replace = incumbent.score_with_cache(&self.problem_config, &self.problem);
        if self.elitism.select(score, score_replace) {
            self.organisms.insert(index_replace, candidate);
        } else {
            self.organisms.insert(index_replace, incumbent);
        }
        proof {
            assert forall|k: int| 0 <= k < self.organisms@.len() && k != index_replace implies #[trigger] self.organisms@[k]
                == old_o[k] by {}
            assert forall|k: int| 0 <= k < self.organisms@.len() implies adaptive_ok(
                #[trigger] self.organisms@[k],
                self.problem_config,
                self.problem,
            ) by {
                if k != index_replace {
                    assert(self.organisms@[k] == old_o[k]);
                } else {
                    assert(adaptive_ok(old_o[k], self.problem_config, self.problem));
                }
            }
            assert(old(self).spec_proposal(
                self.spec_organisms(),
                index_a as int,
                index_replace as int,
                source,
                mutant,
                changed,
            ));
        }
    }

    /// One step with two distinct random indices; returns the whole
    /// population. Every pseudo-count stays at least one.
    pub fn update(&mut self) -> (r: Vec<Organism<V>>)
        requires
            old(self).wf(),
        ensures
            final(self).wf(),
            old(self).same_setting(&*final(self)),
            exists|index_a: int, index_replace: int, source: V, mutant: AdaptiveOrg<V>, changed: bool|
                #[trigger] old(self).spec_proposal(
                    final(self).spec_organisms(),
                    index_a,
                    index_replace,
                    source,
                    mutant,
                    changed,
                ),
            final(self).spec_organisms().len() == old(self).spec_organisms().len(),
            r@.len() == old(self).spec_organisms().len(),
            forall|i: int|
                0 <= i < r@.len() ==> copy_of(final(self).spec_organisms()[i].spec_organism(), #[trigger] r@[i]),
            forall|k: int|
                0 <= k < final(self).spec_organisms().len() ==> (#[trigger] final(self).spec_organisms()[k]).spec_a() >= 1
                    && final(self).spec_organisms()[k].spec_b() >= 1,
    {
        let (index_a, index_replace) = distinct_pair(self.organisms.len());
        self.compete(index_a, index_replace);
        let r = self.population();
        assert forall|k: int| 0 <= k < self.organisms@.len() implies (#[trigger] self.organisms@[k]).spec_a() >= 1
            && self.organisms@[k].spec_b() >= 1 by {
            assert(adaptive_ok(self.organisms@[k], self.problem_config, self.problem));
        }
        r
    }

    /// The pseudo-counts `(a, b)` of each organism.
    pub fn counts(&self) -> (r: Vec<(u64, u64)>)
        ensures
            r@.len() == self.spec_organisms().len(),
            forall|k: int|
                0 <= k < r@.len() ==> #[trigger] r@[k] == (self.spec_organisms()[k].spec_a(), self.spec_organisms()[k].spec_b()),
    {
        let mut r: Vec<(u64, u64)> = Vec::new();
        let mut i: usize = 0;
        while i < self.organisms.len()
            invariant
                i <= self.organisms@.len(),
                r@.len() == i,
                forall|k: int|
                    0 <= k < i ==> #[trigger] r@[k] == (self.organisms@[k].spec_a(), self.organisms@[k].spec_b()),
            decreases self.organisms@.len() - i,
        {
            r.push((self.organisms[i].a, self.organisms[i].b));
            i = i + 1;
        }
        r
    }

    /// Copies of the organisms, without their counts.
    pub fn population(&self) -> (r: Vec<Organism<V>>)
        ensures
            r@.len() == self.spec_organisms().len(),
            forall|i: int| 0 <= i < r@.len() ==> copy_of(self.spec_organisms()[i].spec_organism(), #[trigger] r@[i]),
    {
        let mut r: Vec<Organism<V>> = Vec::new();
        let mut i: usize = 0;
        while i < self.organisms.len()
            invariant
                i <= self.organisms@.len(),
                r@.len() == i,
                forall|k: int| 0 <= k < i ==> copy_of(self.organisms@[k].spec_organism(), #[trigger] r@[k]),
            decreases self.organisms@.len() - i,
        {
            r.push(self.organisms[i].organism_ref().duplicate());
            i = i + 1;
        }
        r
    }
}

} // verus!

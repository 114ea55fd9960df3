use vstd::prelude::*;

use crate::config::ProblemConfig;
use crate::niche::copy_of;
use crate::organism::{Named, Organism};
use crate::random::random_index;
use crate::selection::Elitism;

verus! {

/// Fixed-size flat population without niching.
#[derive(Copy, Clone)]
pub struct SimpleReplacement {}

impl Named for SimpleReplacement {
    fn name(&self) -> String {
        "SimpleReplacement".to_owned()
    }
}

/// Position `index_replace` of `after` is the outcome of a duel between the
/// scored `mutant` and the incumbent there (its cache filled): the mutant
/// takes the place when the comparator keeps it, else the incumbent stays.
/// Every other position is unchanged.
pub open spec fn duel<V, P, H, C: ProblemConfig<V, P, H>, El: Elitism>(
    before: Seq<Organism<V>>,
    after: Seq<Organism<V>>,
    index_replace: int,
    mutant: Organism<V>,
    elitism: El,
    config: C,
    problem: P,
) -> bool {
    let incumbent = before[index_replace].scored(&config, &problem);
    let score_a = mutant.cached_score()->Some_0;
    let score_b = incumbent.cached_score()->Some_0;
    ||| (after == before.update(index_replace, mutant) && elitism.spec_admits(score_a, score_b, true))
    ||| (after == before.update(index_replace, incumbent) && elitism.spec_admits(score_a, score_b, false))
}

/// Two distinct uniformly drawn indices into a population of `size`.
pub(crate) fn distinct_pair(size: usize) -> (r: (usize, usize))
    requires
        size >= 2,
    ensures
        r.0 < size,
        r.1 < size,
        r.0 != r.1,
{
    let a = random_index(size);
    let r = random_index(size - 1);
    let replace = if r >= a {
        r + 1
    } else {
        r
    };
    (a, replace)
}

impl SimpleReplacement {
    /// A population of `pop_size` freshly generated, unscored organisms.
    pub fn initialize_solver<V: Clone, P, H: Copy, C: ProblemConfig<V, P, H>, El: Elitism>(
        &self,
        pop_size: usize,
        problem: P,
        elitism: El,
        problem_config: C,
    ) -> (r: SimpleReplacementExec<V, P, H, C, El>)
        requires
            pop_size >= 2,
        ensures
            r.wf(),
            r.spec_organisms().len() == pop_size,
            forall|k: int|
                0 <= k < pop_size ==> (#[trigger] r.spec_organisms()[k]).cached_score() is None
                    && problem_config.spec_generated(problem, r.spec_organisms()[k].spec_genotype()),
            r.spec_config() == problem_config,
            r.spec_problem() == problem,
            r.spec_elitism() == elitism,
    {
        let mut organisms: Vec<Organism<V>> = Vec::new();
        let mut i: usize = 0;
        while i < pop_size
            invariant
                i <= pop_size,
                organisms@.len() == i,
                forall|k: int|
                    0 <= k < i ==> (#[trigger] organisms@[k]).cached_score() is None && problem_config.spec_generated(
                        problem,
                        organisms@[k].spec_genotype(),
                    ),
            decreases pop_size - i,
        {
            let org = problem_config.generate_organism(&problem);
            organisms.push(org);
            i = i + 1;
        }
        SimpleReplacementExec {
            problem,
            organisms,
            problem_config,
            elitism,
            hyper_marker: core::marker::PhantomData,
        }
    }
}

/// A running simple replacement GA.
pub struct SimpleReplacementExec<V, P, H, C: ProblemConfig<V, P, H>, El: Elitism> {
    problem: P,
    organisms: Vec<Organism<V>>,
    problem_config: C,
    elitism: El,
    hyper_marker: core::marker::PhantomData<H>,
}

impl<V: Clone, P, H: Copy, C: ProblemConfig<V, P, H>, El: Elitism> SimpleReplacementExec<V, P, H, C, El> {
    pub closed spec fn spec_organisms(&self) -> Seq<Organism<V>> {
        self.organisms@
    }

    pub closed spec fn spec_config(&self) -> C {
        self.problem_config
    }

    pub closed spec fn spec_problem(&self) -> P {
        self.problem
    }

    pub closed spec fn spec_elitism(&self) -> El {
        self.elitism
    }

    /// Everything but the population is the same in `other`.
    pub open spec fn same_setting(&self, other: &Self) -> bool {
        &&& other.spec_config() == self.spec_config()
        &&& other.spec_problem() == self.spec_problem()
        &&& other.spec_elitism() == self.spec_elitism()
    }

    /// At least two organisms, each with a valid score cache.
    pub open spec fn wf(&self) -> bool {
        &&& self.spec_organisms().len() >= 2
        &&& forall|k: int|
            0 <= k < self.spec_organisms().len() ==> (#[trigger] self.spec_organisms()[k]).cache_valid(
                &self.spec_config(),
                &self.spec_problem(),
            )
    }

    /// The population `after` is the outcome of one step: the organism at
    /// `index_a` is cloned into `source`, mutated with the constant
    /// hyperparameters into `mutant` (scored), which duels the one at
    /// `index_replace`.
    pub open spec fn spec_proposal(
        &self,
        after: Seq<Organism<V>>,
        index_a: int,
        index_replace: int,
        source: V,
        mutant: Organism<V>,
        changed: bool,
    ) -> bool {
        let cfg = self.spec_config();
        &&& 0 <= index_a < self.spec_organisms().len()
        &&& 0 <= index_replace < self.spec_organisms().len()
        &&& index_a != index_replace
        &&& cloned(self.spec_organisms()[index_a].spec_genotype(), source)
        &&& cfg.spec_mutation(source, cfg.spec_constant_hyperparameters(), mutant.spec_genotype(), changed)
        &&& mutant.cached_score() == Some(cfg.spec_score(mutant.spec_genotype(), self.spec_problem()))
        &&& duel(self.spec_organisms(), after, index_replace, mutant, self.spec_elitism(), cfg, self.spec_problem())
    }

    /// One step with its indices given: a mutant of the organism at
    /// `index_a` competes against the one at `index_replace` and overwrites
    /// it when the comparator keeps it. Only position `index_replace` changes.
    pub fn compete(&mut self, index_a: usize, index_replace: usize)
        requires
            old(self).wf(),
            index_a < old(self).spec_organisms().len(),
            index_replace < old(self).spec_organisms().len(),
            index_a != index_replace,
        ensures
            final(self).wf(),
            old(self).same_setting(&*final(self)),
            exists|source: V, mutant: Organism<V>, changed: bool|
                #[trigger] old(self).spec_proposal(
                    final(self).spec_organisms(),
                    index_a as int,
                    index_replace as int,
                    source,
                    mutant,
                    changed,
                ),
    {
        let ghost old_o = self.organisms@;
        let ghost cfg = self.problem_config;
        let ghost pb = self.problem;
        let mut candidate = self.organisms[index_a].duplicate();
        let ghost source = candidate.spec_genotype();
        let hyper = self.problem_config.constant_hyperparameters();
        let changed = candidate.mutate(&self.problem_config, &hyper);
        let score = candidate.score_with_cache(&self.problem_config, &self.problem);
        let ghost mutant = candidate;
        let mut incumbent = self.organisms.remove(index_replace);
        let score_replace = incumbent.score_with_cache(&self.problem_config, &self.problem);
        if self.elitism.select(score, score_replace) {
            self.organisms.insert(index_replace, candidate);
            assert(self.organisms@ =~= old_o.update(index_replace as int, mutant));
        } else {
            self.organisms.insert(index_replace, incumbent);
            assert(self.organisms@ =~= old_o.update(index_replace as int, old_o[index_replace as int].scored(&cfg, &pb)));
        }
        proof {
            assert forall|k: int| 0 <= k < self.organisms@.len() implies (#[trigger] self.organisms@[k]).cache_valid(
                &self.problem_config,
                &self.problem,
            ) by {
                if k != index_replace {
                    assert(self.organisms@[k] == old_o[k]);
                } else {
                    assert(old_o[k].cache_valid(&self.problem_config, &self.problem));
                }
            }
            assert(old(self).spec_proposal(
                self.spec_organisms(),
                index_a as int,
                index_replace as int,
                source,
                mutant,
                changed,
            ));
        }
    }

    /// One step with two distinct random indices; returns copies of the
    /// whole population, whose size never changes. Whatever was drawn, the
    /// population is the outcome of one `compete`.
    pub fn update(&mut self) -> (r: Vec<Organism<V>>)
        requires
            old(self).wf(),
        ensures
            final(self).wf(),
            old(self).same_setting(&*final(self)),
            exists|index_a: int, index_replace: int, source: V, mutant: Organism<V>, changed: bool|
                #[trigger] old(self).spec_proposal(
                    final(self).spec_organisms(),
                    index_a,
                    index_replace,
                    source,
                    mutant,
                    changed,
                ),
            final(self).spec_organisms().len() == old(self).spec_organisms().len(),
            r@.len() == old(self).spec_organisms().len(),
            forall|i: int| 0 <= i < r@.len() ==> copy_of(final(self).spec_organisms()[i], #[trigger] r@[i]),
    {
        let (index_a, index_replace) = distinct_pair(self.organisms.len());
        self.compete(index_a, index_replace);
        self.population()
    }

    pub fn organisms(&self) -> (r: &Vec<Organism<V>>)
        ensures
            r@ == self.spec_organisms(),
    {
        &self.organisms
    }

    /// Copies of the whole population, in order.
    pub fn population(&self) -> (r: Vec<Organism<V>>)
        ensures
            r@.len() == self.spec_organisms().len(),
            forall|i: int| 0 <= i < r@.len() ==> copy_of(self.spec_organisms()[i], #[trigger] r@[i]),
    {
        let mut r: Vec<Organism<V>> = Vec::new();
        let mut i: usize = 0;
        while i < self.organisms.len()
            invariant
                i <= self.organisms@.len(),
                r@.len() == i,
                forall|k: int| 0 <= k < i ==> copy_of(self.organisms@[k], #[trigger] r@[k]),
            decreases self.organisms@.len() - i,
        {
            r.push(self.organisms[i].duplicate());
            i = i + 1;
        }
        r
    }
}

} // verus!
